//! The pure core of the folder listing: building one folder's display
//! summary from its first chart's text, and deciding whether it
//! matches a search query.  The caller walks the directories and
//! supplies the text.

use vstd::prelude::*;
use vstd::string::*;

use crate::model::{Beatmapset, BeatmapsetView};
use crate::parser::{scrape, spec_scrape};
use crate::skin::{lower, to_lower_ascii};
use crate::text::{contains_str, contains_sub, find, find_str, lemma_find_from_some};

verus! {

/// The text a search query is matched against:
/// `<title> - <artist> | <creator> (<id> <setId>)`.
pub open spec fn spec_searchable(content: Seq<char>) -> Seq<char> {
    spec_scrape(content, "Title:"@, "\n"@) + " - "@ + spec_scrape(content, "Artist:"@, "\n"@)
        + " | "@ + spec_scrape(content, "Creator:"@, "\n"@) + " ("@ + spec_scrape(
        content,
        "BeatmapID:"@,
        "\n"@,
    ) + " "@ + spec_scrape(content, "BeatmapSetID:"@, "\n"@) + ")"@
}

/// Whether a chart matches a query: an empty query matches everything,
/// else the query must occur in the searchable text, both folded to
/// lower case.
pub open spec fn spec_matches_query(content: Seq<char>, query: Seq<char>) -> bool {
    query.len() == 0 || contains_sub(lower(spec_searchable(content)), lower(query))
}

/// The title shown in a listing: `<artist> - <title>` when both were
/// scraped, else the folder name with its leading word removed.
pub open spec fn spec_display_title(
    title: Seq<char>,
    artist: Seq<char>,
    folder_name: Seq<char>,
) -> Seq<char> {
    if title.len() > 0 && artist.len() > 0 {
        artist + " - "@ + title
    } else {
        match find(folder_name, " "@) {
            Some(i) => folder_name.subrange(i + 1, folder_name.len() as int),
            None => folder_name,
        }
    }
}

/// A scraped field shown as `Unknown` when it was absent.
pub open spec fn spec_or_unknown(s: Seq<char>) -> Seq<char> {
    if s.len() == 0 {
        "Unknown"@
    } else {
        s
    }
}

/// The summary of one folder, or nothing when the query does not
/// match.
pub open spec fn spec_beatmap_summary(
    folder_path: Seq<char>,
    folder_name: Seq<char>,
    content: Seq<char>,
    query: Seq<char>,
) -> Option<BeatmapsetView> {
    if spec_matches_query(content, query) {
        let title = spec_scrape(content, "Title:"@, "\n"@);
        let artist = spec_scrape(content, "Artist:"@, "\n"@);
        let bg = spec_scrape(content, "0,0,\""@, "\""@);
        Some(
            BeatmapsetView {
                folder_name: folder_name,
                title: spec_display_title(title, artist, folder_name),
                artist: spec_or_unknown(artist),
                creator: spec_or_unknown(spec_scrape(content, "Creator:"@, "\n"@)),
                background_path: (if bg.len() > 0 {
                    Some(folder_path + "/"@ + bg)
                } else {
                    None
                }),
                beatmap_id: spec_scrape(content, "BeatmapID:"@, "\n"@),
                beatmap_set_id: spec_scrape(content, "BeatmapSetID:"@, "\n"@),
            },
        )
    } else {
        None
    }
}

/// Builds the listing summary of one folder from its first chart's
/// text, scraping the display fields and applying the search query.
pub fn beatmap_summary(
    folder_path: &str,
    folder_name: &str,
    content: &str,
    search_query: &str,
) -> (r: Option<Beatmapset>)
    ensures
        (match r {
            Some(b) => spec_beatmap_summary(folder_path@, folder_name@, content@, search_query@)
                == Some(b@),
            None => spec_beatmap_summary(folder_path@, folder_name@, content@, search_query@)
                is None,
        }),
{
    let title = scrape(content, "Title:", "\n");
    let artist = scrape(content, "Artist:", "\n");
    let creator = scrape(content, "Creator:", "\n");
    let beatmap_id = scrape(content, "BeatmapID:", "\n");
    let beatmapset_id = scrape(content, "BeatmapSetID:", "\n");
    let bg_file = scrape(content, "0,0,\"", "\"");
    let mut searchable = title.clone();
    searchable.append(" - ");
    searchable.append(artist.as_str());
    searchable.append(" | ");
    searchable.append(creator.as_str());
    searchable.append(" (");
    searchable.append(beatmap_id.as_str());
    searchable.append(" ");
    searchable.append(beatmapset_id.as_str());
    searchable.append(")");
    let qn = search_query.unicode_len();
    let matches = if qn == 0 {
        true
    } else {
        let ls = to_lower_ascii(searchable.as_str());
        let lq = to_lower_ascii(search_query);
        contains_str(ls.as_str(), lq.as_str())
    };
    if !matches {
        return None;
    }
    let display_title = if title.as_str().unicode_len() > 0 && artist.as_str().unicode_len() > 0 {
        let mut d = artist.clone();
        d.append(" - ");
        d.append(title.as_str());
        d
    } else {
        match find_str(folder_name, " ") {
            Some(i) => {
                proof {
                    reveal_strlit(" ");
                    lemma_find_from_some(folder_name@, " "@, 0);
                }
                let fn_len = folder_name.unicode_len();
                folder_name.substring_char(i + 1, fn_len).to_owned()
            },
            None => folder_name.to_owned(),
        }
    };
    let artist_field = if artist.as_str().unicode_len() == 0 {
        "Unknown".to_owned()
    } else {
        artist.clone()
    };
    let creator_field = if creator.as_str().unicode_len() == 0 {
        "Unknown".to_owned()
    } else {
        creator.clone()
    };
    let background_path = if bg_file.as_str().unicode_len() > 0 {
        let mut p = folder_path.to_owned();
        p.append("/");
        p.append(bg_file.as_str());
        Some(p)
    } else {
        None
    };
    let b = Beatmapset {
        folder_name: folder_name.to_owned(),
        title: display_title,
        artist: artist_field,
        creator: creator_field,
        background_path: background_path,
        beatmap_id: beatmap_id,
        beatmap_set_id: beatmapset_id,
    };
    proof {
        assert(b@ =~~= spec_beatmap_summary(
            folder_path@,
            folder_name@,
            content@,
            search_query@,
        )->0);
    }
    Some(b)
}

} // verus!

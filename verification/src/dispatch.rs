//! Choosing the content type of a URL-bearing save.
use vstd::prelude::*;

use crate::youtube::{
    is_id_char, lemma_recognised_forms_yield_their_id, youtube_video_id, youtube_video_id_of,
};

verus! {

/// The kind of content that a library entry holds.
#[derive(Clone, Copy, Debug, PartialEq, Eq, Structural, Hash)]
pub enum ItemType {
    Article,
    Video,
}

/// Infer the library content type for a URL-bearing save: a video for a
/// supported YouTube URL, an article otherwise.
pub fn infer_item_type_for_url(url: &str) -> (t: ItemType)
    ensures
        t == (if youtube_video_id_of(url@) is Some { ItemType::Video } else { ItemType::Article }),
{
    match inferred_url_item_type(url) {
        Some(t) => t,
        None => ItemType::Article,
    }
}

fn inferred_url_item_type(url: &str) -> (t: Option<ItemType>)
    ensures
        t == (if youtube_video_id_of(url@) is Some { Some(ItemType::Video) } else { None::<ItemType> }),
{
    if is_youtube_url(url) {
        Some(ItemType::Video)
    } else {
        None
    }
}

/// Returns true when `url` identifies a supported YouTube video.
///
/// Recognised forms:
/// - `https://www.youtube.com/watch?v=...`
/// - `https://m.youtube.com/watch?v=...`
/// - `https://music.youtube.com/watch?v=...`
/// - `https://youtube.com/watch?v=...`
/// - `https://youtube.com/shorts/...`
/// - `https://youtu.be/...`
pub fn is_youtube_url(url: &str) -> (b: bool)
    ensures
        b == youtube_video_id_of(url@) is Some,
{
    youtube_video_id(url).is_some()
}

/// Extract the stable video ID from a supported YouTube URL.
pub fn extract_youtube_video_id(url: &str) -> (r: Option<String>)
    ensures
        r matches Some(id) ==> youtube_video_id_of(url@) == Some(id@),
        r is None ==> youtube_video_id_of(url@) is None,
{
    youtube_video_id(url)
}

/// The URL forms that `is_youtube_url` documents, for the video ID `id`.
pub open spec fn documented_youtube_urls(id: Seq<char>) -> Seq<Seq<char>> {
    seq![
        "https://www.youtube.com/watch?v="@ + id,
        "https://m.youtube.com/watch?v="@ + id,
        "https://music.youtube.com/watch?v="@ + id,
        "https://youtube.com/watch?v="@ + id,
        "https://youtube.com/shorts/"@ + id,
        "https://youtu.be/"@ + id,
    ]
}

/// Every documented form of a YouTube URL names its video: for a video ID
/// (a non-empty run of ASCII letters, digits, `-` and `_`), each form is
/// recognised (`is_youtube_url` holds), `extract_youtube_video_id` gives
/// the ID back, and the save is dispatched as a video; for every URL, the
/// two functions agree, as both are stated over `youtube_video_id_of`.
pub proof fn lemma_documented_forms_are_videos(id: Seq<char>)
    requires
        id.len() > 0,
        forall|i: int| 0 <= i < id.len() ==> is_id_char(#[trigger] id[i]),
    ensures
        forall|k: int|
            0 <= k < documented_youtube_urls(id).len() ==> youtube_video_id_of(
                #[trigger] documented_youtube_urls(id)[k],
            ) == Some(id),
{
    lemma_recognised_forms_yield_their_id(id);
    reveal_strlit("https://");
    reveal_strlit("www.youtube.com");
    reveal_strlit("m.youtube.com");
    reveal_strlit("music.youtube.com");
    reveal_strlit("youtube.com");
    reveal_strlit("youtu.be");
    reveal_strlit("/watch?v=");
    reveal_strlit("/shorts/");
    reveal_strlit("/");
    reveal_strlit("https://www.youtube.com/watch?v=");
    reveal_strlit("https://m.youtube.com/watch?v=");
    reveal_strlit("https://music.youtube.com/watch?v=");
    reveal_strlit("https://youtube.com/watch?v=");
    reveal_strlit("https://youtube.com/shorts/");
    reveal_strlit("https://youtu.be/");
    assert("https://www.youtube.com/watch?v="@ + id =~= "https://"@ + "www.youtube.com"@ + ("/watch?v="@ + id));
    assert("https://m.youtube.com/watch?v="@ + id =~= "https://"@ + "m.youtube.com"@ + ("/watch?v="@ + id));
    assert("https://music.youtube.com/watch?v="@ + id =~= "https://"@ + "music.youtube.com"@ + ("/watch?v="@ + id));
    assert("https://youtube.com/watch?v="@ + id =~= "https://"@ + "youtube.com"@ + ("/watch?v="@ + id));
    assert("https://youtube.com/shorts/"@ + id =~= "https://"@ + "youtube.com"@ + ("/shorts/"@ + id));
    assert("https://youtu.be/"@ + id =~= "https://"@ + "youtu.be"@ + ("/"@ + id));
}

} // verus!

//! Artist, album and track images: accepted formats and where uploads are kept.

use vstd::prelude::*;

use crate::text::{int_text, push_char, push_i32, push_str, str_eq};

verus! {

pub struct ImageResponse {
    /// Relative URL of the stored image, e.g. `/images/artists/42.jpg`.
    pub url: String,
}

pub struct BatchThumbnailResult {
    /// Number of entities that now have an image (fetch succeeded).
    pub count: i32,
    /// Number of entities that have no image after attempting to fetch.
    pub skipped: i32,
}

/// An uploaded image as the form hands it: its declared media type, if any.
pub struct ImageUpload {
    pub content_type: Option<(String, String)>,
}

/// The extension an image of media type `top/sub` is stored with, for the
/// accepted formats: JPEG, PNG, WebP and GIF.
pub open spec fn image_ext_spec(top: Seq<char>, sub: Seq<char>) -> Option<Seq<char>> {
    if top != "image"@ {
        None
    } else if sub == "jpeg"@ {
        Some("jpg"@)
    } else if sub == "png"@ {
        Some("png"@)
    } else if sub == "webp"@ {
        Some("webp"@)
    } else if sub == "gif"@ {
        Some("gif"@)
    } else {
        None
    }
}

pub fn image_ext(upload: &ImageUpload) -> (res: Option<&'static str>)
    ensures
        match upload.content_type {
            None => res is None,
            Some((top, sub)) => match res {
                Some(e) => image_ext_spec(top@, sub@) == Some(e@),
                None => image_ext_spec(top@, sub@) is None,
            },
        },
{
    match &upload.content_type {
        None => None,
        Some((top, sub)) => {
            if !str_eq(top.as_str(), "image") {
                None
            } else if str_eq(sub.as_str(), "jpeg") {
                Some("jpg")
            } else if str_eq(sub.as_str(), "png") {
                Some("png")
            } else if str_eq(sub.as_str(), "webp") {
                Some("webp")
            } else if str_eq(sub.as_str(), "gif") {
                Some("gif")
            } else {
                None
            }
        },
    }
}

/// `"<id>.<ext>"`: the file name of an entity's image.
pub open spec fn image_file_name_spec(id: i32, ext: Seq<char>) -> Seq<char> {
    int_text(id as int) + seq!['.'] + ext
}

pub fn image_file_name(id: i32, ext: &str) -> (res: String)
    ensures
        res@ == image_file_name_spec(id, ext@),
{
    let mut s = String::new();
    push_i32(&mut s, id);
    push_char(&mut s, '.');
    push_str(&mut s, ext);
    assert(s@ =~= image_file_name_spec(id, ext@));
    s
}

/// `"/images/<sub_dir>/<file_name>"`: the public URL of a stored image.
pub open spec fn image_url_spec(sub_dir: Seq<char>, file_name: Seq<char>) -> Seq<char> {
    "/images/"@ + sub_dir + seq!['/'] + file_name
}

pub fn image_url(sub_dir: &str, file_name: &str) -> (res: String)
    ensures
        res@ == image_url_spec(sub_dir@, file_name@),
{
    let mut s = "/images/".to_owned();
    push_str(&mut s, sub_dir);
    push_char(&mut s, '/');
    push_str(&mut s, file_name);
    assert(s@ =~= image_url_spec(sub_dir@, file_name@));
    s
}

/// Extensions under which an earlier image of an entity may be stored; all are
/// removed before a new one is saved.
pub open spec fn stored_image_exts() -> Seq<Seq<char>> {
    seq!["jpg"@, "jpeg"@, "png"@, "webp"@, "gif"@]
}

pub fn previous_image_names(id: i32) -> (res: Vec<String>)
    ensures
        res@.len() == 5,
        forall|k: int| 0 <= k < 5 ==> #[trigger] res@[k]@ == image_file_name_spec(id, stored_image_exts()[k]),
{
    let mut out: Vec<String> = Vec::new();
    out.push(image_file_name(id, "jpg"));
    out.push(image_file_name(id, "jpeg"));
    out.push(image_file_name(id, "png"));
    out.push(image_file_name(id, "webp"));
    out.push(image_file_name(id, "gif"));
    out
}

impl BatchThumbnailResult {
    pub fn new() -> (res: Self)
        ensures
            res.count == 0 && res.skipped == 0,
    {
        BatchThumbnailResult { count: 0, skipped: 0 }
    }

    /// Counts one entity that had no image: found one, or still has none.
    pub fn record(&mut self, found: bool)
        requires
            old(self).count + old(self).skipped < i32::MAX,
            old(self).count >= 0 && old(self).skipped >= 0,
        ensures
            final(self).count == old(self).count + if found { 1int } else { 0 },
            final(self).skipped == old(self).skipped + if found { 0int } else { 1 },
    {
        if found {
            self.count = self.count + 1;
        } else {
            self.skipped = self.skipped + 1;
        }
    }
}

} // verus!

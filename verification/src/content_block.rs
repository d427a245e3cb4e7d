//! Content blocks of messages.

use crate::json::{
    json_views, lemma_json_views, lemma_json_views_push, no_members, put, put_text, text_field,
    text_field_or, Json, Jv,
};
use crate::text::{cat2, str_eq, trim, trim_of};
use vstd::prelude::*;

verus! {

/// A text block.
pub open spec fn text_view(s: Seq<char>) -> Jv {
    Jv::Object(
        Map::<Seq<char>, Jv>::empty().insert("type"@, Jv::Text("text"@)).insert("text"@, Jv::Text(s)),
    )
}

/// A text block.
pub fn text(s: &str) -> (r: Json)
    ensures
        r@ == text_view(s@),
{
    let mut m = no_members();
    put_text(&mut m, "type", "text");
    put_text(&mut m, "text", s);
    Json::Object(m)
}

/// What stands for an image where the model cannot see.
pub open spec fn image_placeholder_view() -> Jv {
    text_view("该处为图片消息。"@)
}

/// What stands for an image where the model cannot see.
pub fn image_placeholder() -> (r: Json)
    ensures
        r@ == image_placeholder_view(),
{
    text("该处为图片消息。")
}

/// A block with the address of an image.
pub open spec fn image_url_view(url: Seq<char>) -> Jv {
    Jv::Object(
        Map::<Seq<char>, Jv>::empty().insert("type"@, Jv::Text("image_url"@)).insert(
            "image_url"@,
            Jv::Object(Map::<Seq<char>, Jv>::empty().insert("url"@, Jv::Text(url))),
        ),
    )
}

/// A block with the address of an image.
pub fn image_url(url: &str) -> (r: Json)
    ensures
        r@ == image_url_view(url@),
{
    let mut inner = no_members();
    put_text(&mut inner, "url", url);
    let mut m = no_members();
    put_text(&mut m, "type", "image_url");
    put(&mut m, "image_url", Json::Object(inner));
    Json::Object(m)
}

/// The address that holds the data of an image.
pub open spec fn data_url(mime: Seq<char>, data: Seq<char>) -> Seq<char> {
    "data:"@ + mime + ";base64,"@ + data
}

/// A block with an image by its data.
pub fn image_url_data(mime: &str, data: &str) -> (r: Json)
    ensures
        r@ == image_url_view(data_url(mime@, data@)),
{
    let mut url = cat2("data:", mime);
    url.append(";base64,");
    url.append(data);
    image_url(url.as_str())
}

/// The type of a block.
pub open spec fn block_type(v: Jv) -> Seq<char> {
    trim_of(text_field_or(v, "type"@, ""@))
}

/// Whether a block is an image.
pub open spec fn is_image(v: Jv) -> bool {
    let t = block_type(v);
    t == "image"@ || t == "image_url"@ || t == "input_image"@
}

/// Whether a block is an image.
pub fn is_image_part(part: &Json) -> (r: bool)
    ensures
        r == is_image(part@),
{
    let t = trim(part.str_or("type", ""));
    str_eq(t, "image") || str_eq(t, "image_url") || str_eq(t, "input_image")
}

/// A block as it is stored: an image that comes with its data is stored by
/// the address that holds them.
pub open spec fn stored_part(v: Jv) -> Jv {
    match (text_field(v, "data"@), text_field(v, "mimeType"@)) {
        (Some(data), Some(mime)) => if block_type(v) == "image"@ {
            image_url_view(data_url(mime, data))
        } else {
            v
        },
        _ => v,
    }
}

fn normalize_part(part: &Json) -> (r: Json)
    ensures
        r@ == stored_part(part@),
{
    match (part.get_str("data"), part.get_str("mimeType")) {
        (Some(data), Some(mime)) => if str_eq(trim(part.str_or("type", "")), "image") {
            image_url_data(mime, data)
        } else {
            part.copy()
        },
        _ => part.copy(),
    }
}

/// Content as it is stored: a list of blocks.
pub open spec fn stored_content(v: Jv) -> Option<Jv> {
    match v {
        Jv::Text(s) => Some(Jv::Array(seq![text_view(s)])),
        Jv::Array(items) => Some(Jv::Array(items.map_values(|p: Jv| stored_part(p)))),
        _ => None,
    }
}

/// Content as it is stored; content that is neither text nor a list of blocks
/// is refused.
pub fn normalize_user_content(content: &Json) -> (r: Result<Json, String>)
    ensures
        match stored_content(content@) {
            Some(v) => r matches Ok(j) && j@ == v,
            None => r matches Err(e) && e@
                == "User content must be a string or list of content blocks."@,
        },
{
    match content {
        Json::Text(s) => {
            let mut items: Vec<Json> = Vec::new();
            let block = text(s.as_str());
            let ghost before = items@;
            items.push(block);
            proof {
                lemma_json_views_push(before, block);
                lemma_json_views(items@);
                assert(json_views(items@) =~= seq![text_view(s@)]);
            }
            Ok(Json::Array(items))
        },
        Json::Array(parts) => {
            let mut items: Vec<Json> = Vec::new();
            let mut i: usize = 0;
            let ghost want = json_views(parts@).map_values(|p: Jv| stored_part(p));
            proof {
                lemma_json_views(parts@);
                assert(json_views(items@) =~= want.take(0));
            }
            while i < parts.len()
                invariant
                    i <= parts@.len(),
                    want == json_views(parts@).map_values(|p: Jv| stored_part(p)),
                    json_views(parts@).len() == parts@.len(),
                    forall|k: int| 0 <= k < parts@.len() ==> #[trigger] json_views(parts@)[k] == parts@[k]@,
                    json_views(items@) == want.take(i as int),
                decreases parts@.len() - i,
            {
                let part = normalize_part(&parts[i]);
                let ghost before = items@;
                items.push(part);
                proof {
                    lemma_json_views_push(before, part);
                    assert(want[i as int] == stored_part(json_views(parts@)[i as int]));
                    assert(want.take(i + 1) =~= want.take(i as int).push(want[i as int]));
                }
                i += 1;
            }
            proof {
                assert(want.take(parts@.len() as int) =~= want);
            }
            Ok(Json::Array(items))
        },
        _ => Err("User content must be a string or list of content blocks.".to_owned()),
    }
}

/// What the user writes is kept: a text as one text block, blocks in their order, and
/// an image that comes as data as an address that holds the data.
pub proof fn law_content_is_kept(v: Jv)
    ensures
        v matches Jv::Text(s) ==> stored_content(v) == Some(
            Jv::Array(
                seq![Jv::Object(map!["type"@ => Jv::Text("text"@), "text"@ => Jv::Text(s)])],
            ),
        ),
        v matches Jv::Array(items) ==> (stored_content(v) matches Some(Jv::Array(kept))
            && kept.len() == items.len() && forall|i: int|
            0 <= i < items.len() ==> (#[trigger] kept[i]) == stored_part(items[i])),
        stored_content(v) is None <==> !(v is Text) && !(v is Array),
{
}

/// Only an image with its data and type is kept in another form.
pub proof fn law_only_images_change_their_form(v: Jv, data: Seq<char>, mime: Seq<char>)
    ensures
        block_type(v) == "image"@ && text_field(v, "data"@) == Some(data) && text_field(
            v,
            "mimeType"@,
        ) == Some(mime) ==> stored_part(v) == image_url_view(data_url(mime, data)),
        block_type(v) != "image"@ || text_field(v, "data"@) is None || text_field(
            v,
            "mimeType"@,
        ) is None ==> stored_part(v) == v,
{
}

/// A block is an image if and only if its type says so.
pub proof fn law_images_are_known_by_their_type(v: Jv)
    ensures
        is_image(v) <==> exists|t: Seq<char>|
            text_field(v, "type"@) == Some(t) && (#[trigger] trim_of(t) == "image"@ || trim_of(t)
                == "image_url"@ || trim_of(t) == "input_image"@),
{
    let t = text_field_or(v, "type"@, ""@);
    if text_field(v, "type"@) is None {
        reveal_strlit("");
        reveal_strlit("image");
        reveal_strlit("image_url");
        reveal_strlit("input_image");
        assert(trim_of(""@).len() == 0);
    } else {
        assert(text_field(v, "type"@) == Some(t));
        assert(trim_of(t) == block_type(v));
    }
}

/// Blocks that are made say what they are.
pub proof fn law_made_blocks(s: Seq<char>, mime: Seq<char>, data: Seq<char>)
    ensures
        text_view(s) == Jv::Object(map!["type"@ => Jv::Text("text"@), "text"@ => Jv::Text(s)]),
        image_url_view(s) == Jv::Object(
            map![
                "type"@ => Jv::Text("image_url"@),
                "image_url"@ => Jv::Object(map!["url"@ => Jv::Text(s)]),
            ],
        ),
        data_url(mime, data) == "data:"@ + mime + ";base64,"@ + data,
        image_placeholder_view() == text_view("该处为图片消息。"@),
{
}

} // verus!

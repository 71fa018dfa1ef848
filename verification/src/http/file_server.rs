use vstd::prelude::*;
use crate::http::html::Html;
use crate::http::response::body_text;
use crate::http::response::lossy;
use crate::text::chars::chars_of;
use crate::text::chars::extend_text;
use crate::text::chars::spells;
use crate::text::chars::text_of;
use crate::text::split::cut;
use crate::text::split::lemma_split_on_len;
use crate::text::split::split_on;
use crate::text::split::views;

verus! {

/// The content type that goes with a file extension. Of a file without
/// extension, or with one that is not known, the content is plain text.
pub open spec fn content_type_of(extension: Option<Seq<char>>) -> Seq<char> {
    match extension {
        Some(ext) => if ext == "html"@ {
            "text/html"@
        } else if ext == "css"@ {
            "text/css"@
        } else if ext == "js"@ {
            "application/javascript"@
        } else if ext == "json"@ {
            "application/json"@
        } else if ext == "png"@ {
            "image/png"@
        } else if ext == "jpg"@ || ext == "jpeg"@ {
            "image/jpeg"@
        } else if ext == "gif"@ {
            "image/gif"@
        } else {
            "text/plain"@
        },
        None => "text/plain"@,
    }
}

/// The last of `parts` that names something: that is neither empty nor a
/// single full stop.
pub open spec fn last_named(parts: Seq<Seq<char>>) -> Option<Seq<char>>
    decreases parts.len(),
{
    if parts.len() == 0 {
        None
    } else if parts.last().len() > 0 && parts.last() != "."@ {
        Some(parts.last())
    } else {
        last_named(parts.drop_last())
    }
}

/// The file name of `path`: the last of its parts between slashes that
/// names something, unless that is `..`.
pub open spec fn file_name_of(path: Seq<char>) -> Option<Seq<char>> {
    match last_named(split_on(path, '/')) {
        Some(name) => if name == ".."@ {
            None
        } else {
            Some(name)
        },
        None => None,
    }
}

/// The extension of the file name `name`: what stands behind its last full
/// stop. A name without full stop has none, and neither has a name whose
/// only full stop is its first character.
pub open spec fn extension_in(name: Seq<char>) -> Option<Seq<char>> {
    let parts = split_on(name, '.');
    if parts.len() < 2 || (parts.len() == 2 && parts[0].len() == 0) {
        None
    } else {
        Some(parts.last())
    }
}

/// The extension of the file that `path` names, if it names one with an
/// extension. Paths are cut at slashes.
pub open spec fn extension_of_path(path: Seq<char>) -> Option<Seq<char>> {
    match file_name_of(path) {
        Some(name) => extension_in(name),
        None => None,
    }
}

/// The file that the request path `path` stands for: the index page for
/// `/`, else the file of that path below `public`.
pub open spec fn asset_file(path: Seq<char>) -> Seq<char> {
    if path == "/"@ {
        "public/index.html"@
    } else {
        "public"@ + path
    }
}

/// The content type that goes with the file extension `extension`.
pub fn content_type_for(extension: Option<&str>) -> (content_type: &'static str)
    ensures
        content_type@ == content_type_of(
            match extension {
                Some(ext) => Some(ext@),
                None => None,
            },
        ),
{
    match extension {
        Some(ext) => {
            let chars = chars_of(ext);
            if spells(&chars, "html") {
                "text/html"
            } else if spells(&chars, "css") {
                "text/css"
            } else if spells(&chars, "js") {
                "application/javascript"
            } else if spells(&chars, "json") {
                "application/json"
            } else if spells(&chars, "png") {
                "image/png"
            } else if spells(&chars, "jpg") || spells(&chars, "jpeg") {
                "image/jpeg"
            } else if spells(&chars, "gif") {
                "image/gif"
            } else {
                "text/plain"
            }
        },
        None => "text/plain",
    }
}

/// The file name of the path that `chars` spells.
fn file_name(chars: &Vec<char>) -> (name: Option<Vec<char>>)
    ensures
        match name {
            Some(found) => file_name_of(chars@) == Some(found@),
            None => file_name_of(chars@) is None,
        },
{
    let mut parts = cut(chars, '/');
    let ghost all = views(parts@);
    while parts.len() > 0
        invariant
            last_named(views(parts@)) == last_named(all),
            all == split_on(chars@, '/'),
        decreases parts.len(),
    {
        let ghost before = views(parts@);
        match parts.pop() {
            Some(part) => {
                assert(before.last() == part@);
                assert(views(parts@) == before.drop_last());
                if part.len() > 0 && !spells(&part, ".") {
                    if spells(&part, "..") {
                        return None;
                    }
                    return Some(part);
                }
            },
            None => {},
        }
    }
    None
}

/// The extension of the file name that `name` spells.
fn extension(name: &Vec<char>) -> (ext: Option<Vec<char>>)
    ensures
        match ext {
            Some(found) => extension_in(name@) == Some(found@),
            None => extension_in(name@) is None,
        },
{
    let mut parts = cut(name, '.');
    proof {
        lemma_split_on_len(name@, '.');
    }
    let ghost all = views(parts@);
    assert(all[0] == parts@[0]@);
    if parts.len() < 2 || (parts.len() == 2 && parts[0].len() == 0) {
        None
    } else {
        parts.pop()
    }
}

/// The extension of the file that `path` names.
pub fn path_extension(path: &str) -> (ext: Option<String>)
    ensures
        match ext {
            Some(found) => extension_of_path(path@) == Some(found@),
            None => extension_of_path(path@) is None,
        },
{
    match file_name(&chars_of(path)) {
        Some(name) => match extension(&name) {
            Some(found) => Some(text_of(&found)),
            None => None,
        },
        None => None,
    }
}

/// The content type of the file at `path`: the one that goes with the
/// extension of its file name.
pub fn get_content_type(path: &str) -> (content_type: &'static str)
    ensures
        content_type@ == content_type_of(extension_of_path(path@)),
{
    match path_extension(path) {
        Some(ext) => content_type_for(Some(ext.as_str())),
        None => content_type_for(None),
    }
}

/// The file that the request path `path` stands for.
pub fn asset_path(path: &str) -> (file: String)
    ensures
        file@ == asset_file(path@),
{
    let chars = chars_of(path);
    if spells(&chars, "/") {
        "public/index.html".to_owned()
    } else {
        let mut out: Vec<char> = Vec::new();
        extend_text(&mut out, "public");
        extend_text(&mut out, path);
        text_of(&out)
    }
}

/// What is served of the file at `file_path` that holds `contents`: the
/// contents as text, under the content type of the file.
pub fn serve_contents(file_path: &str, contents: &[u8]) -> (html: Html)
    ensures
        html.content@ == body_text(contents@),
        html.content_type@ == content_type_of(extension_of_path(file_path@)),
{
    let content_type = get_content_type(file_path).to_owned();
    let content = lossy(contents);
    Html { content_type, content }
}

} // verus!

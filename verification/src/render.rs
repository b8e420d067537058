//! Pure helpers of the mobile HTML renderer: markup escaping, video-id
//! extraction and image-path resolution. The tree-to-markup walk itself
//! lives with the note parser outside this library; these are the pieces it
//! leans on.

use crate::strutil::{
    find_char_from, find_sub, first_char_at_from, first_sub_at, has_char_from, has_sub,
    last_char_at, rfind_char, starts_with_str,
};
use vstd::prelude::*;

verus! {

/// What one character renders as inside HTML text.
pub open spec fn escape_char(c: char) -> Seq<char> {
    if c == '&' {
        "&amp;"@
    } else if c == '<' {
        "&lt;"@
    } else if c == '>' {
        "&gt;"@
    } else if c == '"' {
        "&quot;"@
    } else {
        seq![c]
    }
}

/// The HTML-escaped form of a text: every character replaced by its escape.
pub open spec fn html_escape_spec(s: Seq<char>) -> Seq<char>
    decreases s.len(),
{
    if s.len() == 0 {
        Seq::empty()
    } else {
        html_escape_spec(s.drop_last()) + escape_char(s.last())
    }
}

/// Escape the four HTML-active characters of a text.
pub fn html_escape(s: &str) -> (r: String)
    ensures
        r@ == html_escape_spec(s@),
{
    let slen = s.unicode_len();
    let mut out = String::new();
    let mut i: usize = 0;
    while i < slen
        invariant
            slen == s@.len(),
            i <= slen,
            out@ == html_escape_spec(s@.subrange(0, i as int)),
        decreases slen - i,
    {
        proof {
            let pre = s@.subrange(0, i as int);
            let post = s@.subrange(0, i as int + 1);
            assert(post.drop_last() =~= pre);
            assert(post.last() == s@[i as int]);
        }
        let c = s.get_char(i);
        if c == '&' {
            out.append("&amp;");
        } else if c == '<' {
            out.append("&lt;");
        } else if c == '>' {
            out.append("&gt;");
        } else if c == '"' {
            out.append("&quot;");
        } else {
            let piece = s.substring_char(i, i + 1);
            proof {
                assert(piece@ =~= seq![s@[i as int]]);
            }
            out.append(piece);
        }
        i += 1;
    }
    proof {
        assert(s@.subrange(0, slen as int) =~= s@);
    }
    out
}

/// The identifier `extract_youtube_id` returns for a watch URL: the text
/// between the first "v=" and the next '&', or the end of the URL.
pub open spec fn watch_id_at(url: Seq<char>, i: int, id: Seq<char>) -> bool {
    &&& first_sub_at(url, "v="@, i)
    &&& {
        ||| (exists|e: int|
            #[trigger] first_char_at_from(url, '&', i + 2, e) && id == url.subrange(i + 2, e))
        ||| (!has_char_from(url, '&', i + 2) && id == url.subrange(i + 2, url.len() as int))
    }
}

/// The identifier `extract_youtube_id` returns for a short URL: the text
/// after the last '/', up to the next '?', or the end of the URL.
pub open spec fn short_id_at(url: Seq<char>, p: int, id: Seq<char>) -> bool {
    &&& !has_sub(url, "v="@)
    &&& has_sub(url, "youtu.be/"@)
    &&& last_char_at(url, '/', p)
    &&& {
        ||| (exists|e: int|
            #[trigger] first_char_at_from(url, '?', p + 1, e) && id == url.subrange(p + 1, e))
        ||| (!has_char_from(url, '?', p + 1) && id == url.subrange(p + 1, url.len() as int))
    }
}

/// What a returned identifier is: the first watch parameter, or for a short
/// link the path segment after the last '/'.
pub open spec fn is_youtube_id(url: Seq<char>, id: Seq<char>) -> bool {
    ||| (exists|i: int| #[trigger] watch_id_at(url, i, id))
    ||| (exists|p: int| #[trigger] short_id_at(url, p, id))
}

/// Pull the video identifier out of a video URL: the value of the first
/// "v=" parameter, or for a short link the path segment after the last '/'.
pub fn extract_youtube_id(url: &str) -> (r: Option<String>)
    ensures
        match r {
            Some(id) => is_youtube_id(url@, id@),
            None => !has_sub(url@, "v="@) && !has_sub(url@, "youtu.be/"@),
        },
{
    let slen = url.unicode_len();
    if let Some(pos) = find_sub(url, "v=") {
        proof {
            reveal_strlit("v=");
            assert("v="@.len() == 2);
        }
        let start = pos + 2;
        let end = match find_char_from(url, '&', start) {
            Some(e) => e,
            None => slen,
        };
        let id = url.substring_char(start, end).to_owned();
        proof {
            assert(watch_id_at(url@, pos as int, id@));
            assert(is_youtube_id(url@, id@));
        }
        return Some(id);
    }
    if contains_short_host(url) {
        if let Some(pos) = rfind_char(url, '/') {
            let start = pos + 1;
            let end = match find_char_from(url, '?', start) {
                Some(e) => e,
                None => slen,
            };
            let id = url.substring_char(start, end).to_owned();
            proof {
                assert(short_id_at(url@, pos as int, id@));
                assert(is_youtube_id(url@, id@));
            }
            return Some(id);
        } else {
            proof {
                let i = choose|i: int| crate::strutil::sub_at(url@, "youtu.be/"@, i);
                reveal_strlit("youtu.be/");
                assert(url@.subrange(i, i + 9)[8] == '/');
                assert(url@[i + 8] == '/');
                assert(false);
            }
        }
    }
    None
}

/// Whether the URL holds the short video host.
fn contains_short_host(url: &str) -> (r: bool)
    ensures
        r == has_sub(url@, "youtu.be/"@),
{
    crate::strutil::contains_sub(url, "youtu.be/")
}

/// The completion state of a task on a note line.
#[derive(Debug, Clone, Copy, PartialEq, Eq, Structural)]
pub enum NoteTaskStatus {
    Todo,
    Doing,
    Done,
}

/// A property attached to a note line, as far as the line's CSS class
/// depends on it.
#[derive(Debug, Clone, Copy, PartialEq, Eq, Structural)]
pub enum LineProperty {
    Task { status: NoteTaskStatus },
    Anchor,
}

/// The class fragment one property contributes.
pub open spec fn property_class(p: LineProperty) -> Seq<char> {
    match p {
        LineProperty::Task { status } => match status {
            NoteTaskStatus::Todo => " task todo"@,
            NoteTaskStatus::Doing => " task doing"@,
            NoteTaskStatus::Done => " task done"@,
        },
        LineProperty::Anchor => " has-anchor"@,
    }
}

/// The CSS class of a note line: each property's fragment in order.
pub open spec fn line_class_spec(props: Seq<LineProperty>) -> Seq<char>
    decreases props.len(),
{
    if props.len() == 0 {
        Seq::empty()
    } else {
        line_class_spec(props.drop_last()) + property_class(props.last())
    }
}

/// Build the CSS class of a note line from its properties.
pub fn get_line_class(properties: &Vec<LineProperty>) -> (r: String)
    ensures
        r@ == line_class_spec(properties@),
{
    let n = properties.len();
    let mut out = String::new();
    let mut i: usize = 0;
    while i < n
        invariant
            n == properties@.len(),
            i <= n,
            out@ == line_class_spec(properties@.subrange(0, i as int)),
        decreases n - i,
    {
        proof {
            let pre = properties@.subrange(0, i as int);
            let post = properties@.subrange(0, i as int + 1);
            assert(post.drop_last() =~= pre);
            assert(post.last() == properties@[i as int]);
        }
        match properties[i] {
            LineProperty::Task { status } => match status {
                NoteTaskStatus::Todo => out.append(" task todo"),
                NoteTaskStatus::Doing => out.append(" task doing"),
                NoteTaskStatus::Done => out.append(" task done"),
            },
            LineProperty::Anchor => out.append(" has-anchor"),
        }
        i += 1;
    }
    proof {
        assert(properties@.subrange(0, n as int) =~= properties@);
    }
    out
}

/// Renderer for the mobile note view; it needs only the workspace root, to
/// resolve relative image paths.
pub struct MobileHtmlRenderer {
    pub workspace_path: Option<String>,
}

/// The path `resolve_image_path` produces from a workspace root and an
/// image source: the source itself when it is already a URL or when no
/// workspace is known, else the workspace-joined path behind the asset
/// protocol.
pub open spec fn resolved_image_path(workspace: Option<Seq<char>>, src: Seq<char>) -> Seq<char> {
    if has_url_scheme(src) {
        src
    } else {
        match workspace {
            Some(w) => "asset://localhost/"@ + joined_path(w, src),
            None => src,
        }
    }
}

/// Whether a source is already an absolute URL.
pub open spec fn has_url_scheme(src: Seq<char>) -> bool {
    src.len() >= 7 && (src.subrange(0, 7) == "http://"@ || (src.len() >= 8 && src.subrange(0, 8)
        == "https://"@))
}

/// A path joined under a directory: an absolute path stands alone; a
/// directory that already ends in a separator gets none added.
pub open spec fn joined_path(dir: Seq<char>, rel: Seq<char>) -> Seq<char> {
    if rel.len() > 0 && rel[0] == '/' {
        rel
    } else if dir.len() > 0 && dir.last() == '/' {
        dir + rel
    } else {
        dir + "/"@ + rel
    }
}

impl MobileHtmlRenderer {
    pub fn new(workspace_path: Option<String>) -> (r: Self)
        ensures
            r.workspace_path == workspace_path,
    {
        Self { workspace_path }
    }

    /// Resolve an image source against the workspace root: URLs pass
    /// through; a local path is served through the asset protocol.
    pub fn resolve_image_path(&self, src: &str) -> (r: String)
        ensures
            r@ == resolved_image_path(
                match self.workspace_path {
                    Some(w) => Some(w@),
                    None => None,
                },
                src@,
            ),
    {
        proof {
            reveal_strlit("http://");
            reveal_strlit("https://");
            assert("http://"@.len() == 7 && "https://"@.len() == 8);
        }
        if starts_with_str(src, "http://") || starts_with_str(src, "https://") {
            return src.to_owned();
        }
        match &self.workspace_path {
            Some(workspace) => {
                let mut out: String = "asset://localhost/".to_owned();
                let srclen = src.unicode_len();
                let wlen = workspace.as_str().unicode_len();
                if srclen > 0 && src.get_char(0) == '/' {
                    out.append(src);
                } else if wlen > 0 && workspace.as_str().get_char(wlen - 1) == '/' {
                    out.append(workspace.as_str());
                    out.append(src);
                    proof {
                        assert(out@ =~= "asset://localhost/"@ + (workspace@ + src@));
                    }
                } else {
                    out.append(workspace.as_str());
                    out.append("/");
                    out.append(src);
                    proof {
                        assert(out@ =~= "asset://localhost/"@ + (workspace@ + "/"@ + src@));
                    }
                }
                out
            },
            None => src.to_owned(),
        }
    }
}

} // verus!

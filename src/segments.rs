//! Rendering of inline segments to HTML.

use crate::ast::{LinkTarget, Segment, Token};
use crate::text::{
    char_count, char_string, ends_with, escape_html, escaped, has_prefix, has_suffix, into_slug,
    prefix_of, slug, starts_with,
};
use vstd::string::*;
use vstd::prelude::*;

verus! {

/// The HTML of a token, escaped where it is text.
pub open spec fn token_html(t: Token) -> Seq<char> {
    match t {
        Token::Whitespace => " "@,
        Token::Text(s) => escaped(s@),
        Token::Special(c) => escaped(seq![c]),
        Token::Escape(c) => seq![c],
    }
}

/// The literal text of a token.
pub open spec fn token_text(t: Token) -> Seq<char> {
    match t {
        Token::Whitespace => " "@,
        Token::Text(s) => s@,
        Token::Special(c) => seq![c],
        Token::Escape(c) => seq![c],
    }
}

/// The literal text of a sequence of tokens.
pub open spec fn tokens_text(ts: Seq<Token>) -> Seq<char>
    decreases ts.len(),
{
    if ts.len() == 0 {
        Seq::empty()
    } else {
        tokens_text(ts.drop_last()) + token_text(ts.last())
    }
}

/// The HTML of a token inside inline code: every token is escaped, escaped
/// characters included.
pub open spec fn code_token_html(t: Token) -> Seq<char> {
    match t {
        Token::Escape(c) => escaped(seq![c]),
        _ => token_html(t),
    }
}

/// Inside inline code only tokens pass, escaped; nested segments are dropped.
pub open spec fn code_segments_html(s: Seq<Segment>) -> Seq<char>
    decreases s.len(),
{
    if s.len() == 0 {
        Seq::empty()
    } else {
        code_segments_html(s.drop_last()) + match s.last() {
            Segment::Token(t) => code_token_html(t),
            _ => Seq::empty(),
        }
    }
}

/// The opening and closing tags that an attached modifier's marker stands for.
pub open spec fn marker_tags(marker: char) -> Option<(Seq<char>, Seq<char>)> {
    if marker == '*' {
        Some(("<strong>"@, "</strong>"@))
    } else if marker == '_' {
        Some(("<em>"@, "</em>"@))
    } else if marker == '^' {
        Some(("<sup>"@, "</sup>"@))
    } else if marker == ',' {
        Some(("<sub>"@, "</sub>"@))
    } else if marker == '-' {
        Some(("<s>"@, "</s>"@))
    } else if marker == '!' {
        Some(("<span class=\"spoiler\">"@, "</span>"@))
    } else if marker == '$' {
        Some(("<span class=\"math\">"@, "</span>"@))
    } else if marker == '&' {
        Some(("<var>"@, "</var>"@))
    } else if marker == '/' {
        Some(("<i>"@, "</i>"@))
    } else if marker == '=' {
        Some(("<mark>"@, "</mark>"@))
    } else {
        None
    }
}

/// An anchor element around HTML that is already rendered; `external` adds
/// `target="_blank"`. The href is escaped.
pub open spec fn anchor_html(href: Seq<char>, display: Seq<char>, external: bool) -> Seq<char> {
    "<a href=\""@ + escaped(href) + (if external {
        "\" target=\"_blank\">"@
    } else {
        "\">"@
    }) + display + "</a>"@
}

/// The link to a URL. Its text is the rendered description, or else the escaped URL.
/// An explicit file path is the href when present; otherwise `http` addresses open
/// in a new tab, and local `.norg` paths point to the `.html` page.
pub open spec fn url_link_html(url: Seq<char>, text: Option<Seq<char>>, filepath: Option<Seq<char>>) -> Seq<char> {
    let display = match text {
        Some(t) => t,
        None => escaped(url),
    };
    match filepath {
        Some(f) => anchor_html(f, display, false),
        None => if starts_with(url, "http"@) {
            anchor_html(url, display, true)
        } else if ends_with(url, ".norg"@) {
            anchor_html(url.take(url.len() - ".norg"@.len()) + ".html"@, display, false)
        } else {
            anchor_html(url, display, false)
        },
    }
}

/// The link to a heading of the document, by the slug of its rendered title. Its text
/// is the rendered description, or else the rendered title.
pub open spec fn heading_link_html(title: Seq<char>, text: Option<Seq<char>>) -> Seq<char> {
    let display = match text {
        Some(t) => t,
        None => title,
    };
    "<a href=\"#"@ + escaped(slug(title)) + "\">"@ + display + "</a>"@
}

/// The HTML of one segment.
pub open spec fn segment_html(seg: Segment) -> Seq<char>
    decreases seg,
{
    match seg {
        Segment::Token(t) => token_html(t),
        Segment::Modifier { marker, content } => if marker == '`' {
            "<code>"@ + code_segments_html(content@) + "</code>"@
        } else {
            match marker_tags(marker) {
                Some(tags) => tags.0 + segments_html(content@) + tags.1,
                None => segments_html(content@),
            }
        },
        Segment::Link { targets, description, filepath } => {
            let text = match description {
                Some(d) => Some(segments_html(d@)),
                None => None,
            };
            if targets@.len() == 0 {
                Seq::empty()
            } else {
                match targets@[0] {
                    LinkTarget::Url(url) => url_link_html(
                        url@,
                        text,
                        match filepath {
                            Some(f) => Some(f@),
                            None => None,
                        },
                    ),
                    LinkTarget::Heading { title, .. } => heading_link_html(segments_html(title@), text),
                    _ => Seq::empty(),
                }
            }
        },
        Segment::Anchor { content } => segments_html(content@),
        Segment::InlineVerbatim(tokens) => "<code>"@ + escaped(tokens_text(tokens@)) + "</code>"@,
        Segment::Unsupported => Seq::empty(),
    }
}

/// The HTML of a sequence of segments: their renderings one after another.
pub open spec fn segments_html(s: Seq<Segment>) -> Seq<char>
    decreases s,
{
    if s.len() == 0 {
        Seq::empty()
    } else {
        segments_html(s.drop_last()) + segment_html(s.last())
    }
}

/// Renders one token; text and special characters are escaped.
fn handle_segment_token(token: &Token) -> (r: String)
    ensures
        r@ == token_html(*token),
{
    match token {
        Token::Whitespace => String::from_str(" "),
        Token::Text(text) => escape_html(text.as_str()),
        Token::Special(ch) => {
            let s = char_string(*ch);
            escape_html(s.as_str())
        },
        Token::Escape(ch) => char_string(*ch),
    }
}

/// Renders one token of inline code, escaped.
fn handle_code_token(token: &Token) -> (r: String)
    ensures
        r@ == code_token_html(*token),
{
    match token {
        Token::Escape(ch) => {
            let s = char_string(*ch);
            escape_html(s.as_str())
        },
        _ => handle_segment_token(token),
    }
}

/// The literal text of a token.
fn token_literal(token: &Token) -> (r: String)
    ensures
        r@ == token_text(*token),
{
    match token {
        Token::Whitespace => String::from_str(" "),
        Token::Text(text) => text.clone(),
        Token::Special(ch) => char_string(*ch),
        Token::Escape(ch) => char_string(*ch),
    }
}

/// Renders the content of inline code: tokens only, escaped.
pub fn convert_code_segments(segments: &Vec<Segment>) -> (r: String)
    ensures
        r@ == code_segments_html(segments@),
{
    let mut r = String::new();
    let mut i: usize = 0;
    while i < segments.len()
        invariant
            i <= segments@.len(),
            r@ == code_segments_html(segments@.take(i as int)),
        decreases segments.len() - i,
    {
        assert(segments@.take(i + 1).drop_last() == segments@.take(i as int));
        match &segments[i] {
            Segment::Token(token) => {
                let t = handle_code_token(token);
                r.append(t.as_str());
            },
            _ => {},
        }
        i = i + 1;
    }
    assert(segments@.take(segments@.len() as int) == segments@);
    r
}

/// Renders a sequence of segments.
pub fn convert_segments(segments: &Vec<Segment>) -> (r: String)
    ensures
        r@ == segments_html(segments@),
    decreases segments@, 0nat,
{
    let mut r = String::new();
    let mut i: usize = 0;
    while i < segments.len()
        invariant
            i <= segments@.len(),
            r@ == segments_html(segments@.take(i as int)),
        decreases segments.len() - i,
    {
        assert(segments@.take(i + 1).drop_last() == segments@.take(i as int));
        proof {
            vstd::seq::axiom_seq_index_decreases(segments@, i as int);
        }
        let h = convert_segment(&segments[i]);
        r.append(h.as_str());
        i = i + 1;
    }
    assert(segments@.take(segments@.len() as int) == segments@);
    r
}

/// Renders one segment.
fn convert_segment(segment: &Segment) -> (r: String)
    ensures
        r@ == segment_html(*segment),
    decreases *segment, 0nat,
{
    match segment {
        Segment::Token(token) => handle_segment_token(token),
        Segment::Modifier { marker, content } => convert_attached_modifier(*marker, content),
        Segment::Link { targets, description, filepath } => {
            let text = match description {
                Some(d) => Some(convert_segments(d)),
                None => None,
            };
            convert_link(targets, text, filepath)
        },
        Segment::Anchor { content } => convert_segments(content),
        Segment::InlineVerbatim(tokens) => {
            let mut literal = String::new();
            let mut i: usize = 0;
            while i < tokens.len()
                invariant
                    i <= tokens@.len(),
                    literal@ == tokens_text(tokens@.take(i as int)),
                decreases tokens.len() - i,
            {
                assert(tokens@.take(i + 1).drop_last() == tokens@.take(i as int));
                let t = token_literal(&tokens[i]);
                literal.append(t.as_str());
                i = i + 1;
            }
            assert(tokens@.take(tokens@.len() as int) == tokens@);
            let mut r = String::from_str("<code>");
            let e = escape_html(literal.as_str());
            r.append(e.as_str());
            r.append("</code>");
            r
        },
        Segment::Unsupported => String::new(),
    }
}

/// Renders an attached modifier around its content.
fn convert_attached_modifier(marker: char, content: &Vec<Segment>) -> (r: String)
    ensures
        r@ == segment_html(Segment::Modifier { marker, content: *content }),
    decreases content@, 1nat,
{
    if marker == '`' {
        let mut r = String::from_str("<code>");
        let inner = convert_code_segments(content);
        r.append(inner.as_str());
        r.append("</code>");
        return r;
    }
    let inner = convert_segments(content);
    let (open, close) = if marker == '*' {
        ("<strong>", "</strong>")
    } else if marker == '_' {
        ("<em>", "</em>")
    } else if marker == '^' {
        ("<sup>", "</sup>")
    } else if marker == ',' {
        ("<sub>", "</sub>")
    } else if marker == '-' {
        ("<s>", "</s>")
    } else if marker == '!' {
        ("<span class=\"spoiler\">", "</span>")
    } else if marker == '$' {
        ("<span class=\"math\">", "</span>")
    } else if marker == '&' {
        ("<var>", "</var>")
    } else if marker == '/' {
        ("<i>", "</i>")
    } else if marker == '=' {
        ("<mark>", "</mark>")
    } else {
        return inner;
    };
    let mut r = String::from_str(open);
    r.append(inner.as_str());
    r.append(close);
    r
}

/// An anchor element with an escaped href around rendered text.
fn anchor(href: &str, display: &str, external: bool) -> (r: String)
    ensures
        r@ == anchor_html(href@, display@, external),
{
    let mut r = String::from_str("<a href=\"");
    let h = escape_html(href);
    r.append(h.as_str());
    if external {
        r.append("\" target=\"_blank\">");
    } else {
        r.append("\">");
    }
    r.append(display);
    r.append("</a>");
    r
}

/// Renders a link from its targets, its rendered description and its file path.
/// Only URL and heading targets render; the other kinds render as nothing.
pub fn convert_link(targets: &Vec<LinkTarget>, text: Option<String>, filepath: &Option<String>) -> (r: String)
    ensures
        targets@.len() == 0 ==> r@ == Seq::<char>::empty(),
        targets@.len() > 0 ==> r@ == match targets@[0] {
            LinkTarget::Url(url) => url_link_html(
                url@,
                match text {
                    Some(t) => Some(t@),
                    None => None,
                },
                match *filepath {
                    Some(f) => Some(f@),
                    None => None,
                },
            ),
            LinkTarget::Heading { title, .. } => heading_link_html(
                segments_html(title@),
                match text {
                    Some(t) => Some(t@),
                    None => None,
                },
            ),
            _ => Seq::<char>::empty(),
        },
    decreases targets@, 1nat,
{
    if targets.len() == 0 {
        return String::new();
    }
    proof {
        vstd::seq::axiom_seq_index_decreases(targets@, 0);
    }
    match &targets[0] {
        LinkTarget::Url(url) => {
            let display = match &text {
                Some(t) => t.clone(),
                None => escape_html(url.as_str()),
            };
            match filepath {
                Some(f) => anchor(f.as_str(), display.as_str(), false),
                None => {
                    if has_prefix(url.as_str(), "http") {
                        anchor(url.as_str(), display.as_str(), true)
                    } else if has_suffix(url.as_str(), ".norg") {
                        let n = char_count(url.as_str()) - char_count(".norg");
                        let mut href = prefix_of(url.as_str(), n);
                        href.append(".html");
                        anchor(href.as_str(), display.as_str(), false)
                    } else {
                        anchor(url.as_str(), display.as_str(), false)
                    }
                },
            }
        },
        LinkTarget::Heading { title, .. } => {
            let title_text = convert_segments(title);
            let id = into_slug(title_text.as_str());
            let display = match &text {
                Some(t) => t.clone(),
                None => title_text,
            };
            let mut r = String::from_str("<a href=\"#");
            let e = escape_html(id.as_str());
            r.append(e.as_str());
            r.append("\">");
            r.append(display.as_str());
            r.append("</a>");
            r
        },
        _ => String::new(),
    }
}

} // verus!

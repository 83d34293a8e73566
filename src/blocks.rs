//! Rendering of single block nodes to HTML.

use crate::ast::{DelimiterKind, Extension, FlatNode, RangeableKind, Segment, TodoStatus};
use crate::segments::{convert_segments, segments_html};
use crate::text::{
    blank, char_count, chars_of, has_prefix, is_blank, escape_html, escaped, into_slug, push_char, same_text, slug,
    starts_with, string_of_range, trim, trimmed,
};
use vstd::prelude::*;
use vstd::string::*;

verus! {

/// The digit character of `d`, for `d < 10`.
pub open spec fn digit(d: nat) -> char {
    if d == 0 { '0' } else if d == 1 { '1' } else if d == 2 { '2' } else if d == 3 { '3' }
    else if d == 4 { '4' } else if d == 5 { '5' } else if d == 6 { '6' } else if d == 7 { '7' }
    else if d == 8 { '8' } else { '9' }
}

/// The decimal digits of `n`.
pub open spec fn decimal(n: nat) -> Seq<char>
    decreases n,
{
    if n < 10 {
        seq![digit(n)]
    } else {
        decimal(n / 10).push(digit(n % 10))
    }
}

fn digit_char(d: usize) -> (r: char)
    requires
        d < 10,
    ensures
        r == digit(d as nat),
{
    if d == 0 { '0' } else if d == 1 { '1' } else if d == 2 { '2' } else if d == 3 { '3' }
    else if d == 4 { '4' } else if d == 5 { '5' } else if d == 6 { '6' } else if d == 7 { '7' }
    else if d == 8 { '8' } else { '9' }
}

/// Appends the decimal digits of `n`.
pub fn push_decimal(out: &mut String, n: usize)
    ensures
        final(out)@ == old(out)@ + decimal(n as nat),
    decreases n,
{
    if n < 10 {
        push_char(out, digit_char(n));
    } else {
        push_decimal(out, n / 10);
        push_char(out, digit_char(n % 10));
    }
}

/// The heading element for a rendered title; its id is the title's slug.
pub open spec fn heading_tag_html(level: u16, title: Seq<char>) -> Seq<char> {
    "<h"@ + decimal(level as nat) + " id=\""@ + slug(title) + "\">"@ + title + "</h"@ + decimal(
        level as nat,
    ) + ">"@
}

/// Renders the heading element of a heading node, without its children.
pub fn heading_tag(level: u16, title: &Vec<Segment>) -> (r: String)
    ensures
        r@ == heading_tag_html(level, segments_html(title@)),
{
    let text = convert_segments(title);
    let id = into_slug(text.as_str());
    let mut r = String::from_str("<h");
    push_decimal(&mut r, level as usize);
    r.append(" id=\"");
    r.append(id.as_str());
    r.append("\">");
    r.append(text.as_str());
    r.append("</h");
    push_decimal(&mut r, level as usize);
    r.append(">");
    r
}

/// A paragraph element, or nothing when the rendered text is blank.
pub open spec fn paragraph_html(segments: Seq<Segment>) -> Option<Seq<char>> {
    let content = segments_html(segments);
    if is_blank(content) {
        None
    } else {
        Some("<p>"@ + content + "</p>"@)
    }
}

/// Renders a paragraph; a blank one renders as nothing.
pub fn paragraph(segments: &Vec<Segment>) -> (r: Option<String>)
    ensures
        match r {
            Some(s) => paragraph_html(segments@) == Some(s@),
            None => paragraph_html(segments@) is None,
        },
{
    let content = convert_segments(segments);
    if blank(content.as_str()) {
        None
    } else {
        let mut r = String::from_str("<p>");
        r.append(content.as_str());
        r.append("</p>");
        Some(r)
    }
}

/// The horizontal rule for a delimiter.
pub open spec fn delimiter_html(kind: DelimiterKind) -> Seq<char> {
    match kind {
        DelimiterKind::Weak => "<hr class=\"weak\" />"@,
        DelimiterKind::Strong => "<hr class=\"strong\" />"@,
        DelimiterKind::HorizontalRule => "<hr />"@,
    }
}

/// Renders a delimiter as a horizontal rule.
pub fn delimiter(kind: &DelimiterKind) -> (r: String)
    ensures
        r@ == delimiter_html(*kind),
{
    match kind {
        DelimiterKind::Weak => String::from_str("<hr class=\"weak\" />"),
        DelimiterKind::Strong => String::from_str("<hr class=\"strong\" />"),
        DelimiterKind::HorizontalRule => String::from_str("<hr />"),
    }
}

/// The marker that a to-do status puts before an item's text.
pub open spec fn todo_marker(status: TodoStatus) -> Seq<char> {
    match status {
        TodoStatus::Undone => "<input type=\"checkbox\" class=\"todo-status todo-undone\" disabled />"@,
        TodoStatus::Done => "<input type=\"checkbox\" class=\"todo-status todo-done\" checked disabled />"@,
        TodoStatus::NeedsClarification => "<span class=\"todo-status todo-clarification\">?</span>"@,
        TodoStatus::Paused => "<span class=\"todo-status todo-paused\">=</span>"@,
        TodoStatus::Urgent => "<span class=\"todo-status todo-urgent\">!</span>"@,
        TodoStatus::Pending => "<span class=\"todo-status todo-pending\">-</span>"@,
        TodoStatus::Canceled => "<span class=\"todo-status todo-canceled\">_</span>"@,
        TodoStatus::Recurring(_) => "<span class=\"todo-status todo-recurring\">+</span>"@,
    }
}

fn todo_html(status: &TodoStatus) -> (r: &'static str)
    ensures
        r@ == todo_marker(*status),
{
    match status {
        TodoStatus::Undone => "<input type=\"checkbox\" class=\"todo-status todo-undone\" disabled />",
        TodoStatus::Done => "<input type=\"checkbox\" class=\"todo-status todo-done\" checked disabled />",
        TodoStatus::NeedsClarification => "<span class=\"todo-status todo-clarification\">?</span>",
        TodoStatus::Paused => "<span class=\"todo-status todo-paused\">=</span>",
        TodoStatus::Urgent => "<span class=\"todo-status todo-urgent\">!</span>",
        TodoStatus::Pending => "<span class=\"todo-status todo-pending\">-</span>",
        TodoStatus::Canceled => "<span class=\"todo-status todo-canceled\">_</span>",
        TodoStatus::Recurring(_) => "<span class=\"todo-status todo-recurring\">+</span>",
    }
}

/// The class that an extension gives its item, if any.
pub open spec fn extension_class(e: Extension) -> Option<Seq<char>> {
    match e {
        Extension::Todo(TodoStatus::Recurring(_)) => Some("todo-recurring"@),
        Extension::Priority(p) => Some("priority-"@ + slug(p@)),
        _ => None,
    }
}

/// The data attribute that an extension gives its item, if any.
pub open spec fn extension_attribute(e: Extension) -> Option<Seq<char>> {
    match e {
        Extension::Priority(p) => Some("data-priority=\""@ + escaped(p@) + "\""@),
        Extension::Timestamp(t) => Some("data-timestamp=\""@ + escaped(t@) + "\""@),
        Extension::DueDate(d) => Some("data-due=\""@ + escaped(d@) + "\""@),
        Extension::StartDate(d) => Some("data-start=\""@ + escaped(d@) + "\""@),
        Extension::Todo(_) => None,
    }
}

/// The marker that an extension puts before its item's text, if any.
pub open spec fn extension_prefix(e: Extension) -> Option<Seq<char>> {
    match e {
        Extension::Todo(status) => Some(todo_marker(status)),
        _ => None,
    }
}

/// The classes that the extensions give their item, in order.
pub open spec fn item_classes(exts: Seq<Extension>) -> Seq<Seq<char>>
    decreases exts.len(),
{
    if exts.len() == 0 {
        Seq::empty()
    } else {
        match extension_class(exts.last()) {
            Some(x) => item_classes(exts.drop_last()).push(x),
            None => item_classes(exts.drop_last()),
        }
    }
}

/// The data attributes that the extensions give their item, in order.
pub open spec fn item_attributes(exts: Seq<Extension>) -> Seq<Seq<char>>
    decreases exts.len(),
{
    if exts.len() == 0 {
        Seq::empty()
    } else {
        match extension_attribute(exts.last()) {
            Some(x) => item_attributes(exts.drop_last()).push(x),
            None => item_attributes(exts.drop_last()),
        }
    }
}

/// The prefix markers that the extensions give their item, in order.
pub open spec fn item_prefixes(exts: Seq<Extension>) -> Seq<Seq<char>>
    decreases exts.len(),
{
    if exts.len() == 0 {
        Seq::empty()
    } else {
        match extension_prefix(exts.last()) {
            Some(x) => item_prefixes(exts.drop_last()).push(x),
            None => item_prefixes(exts.drop_last()),
        }
    }
}

/// `parts` joined by `sep`.
pub open spec fn join(parts: Seq<Seq<char>>, sep: Seq<char>) -> Seq<char>
    decreases parts.len(),
{
    if parts.len() == 0 {
        Seq::empty()
    } else if parts.len() == 1 {
        parts[0]
    } else {
        join(parts.drop_last(), sep) + sep + parts.last()
    }
}

/// The list item for rendered text and its extensions.
pub open spec fn list_item_html(content: Seq<char>, exts: Seq<Extension>) -> Seq<char> {
    let classes = item_classes(exts);
    let attrs = item_attributes(exts);
    let prefixes = item_prefixes(exts);
    let class_attr = if classes.len() == 0 {
        Seq::empty()
    } else {
        " class=\""@ + join(classes, " "@) + "\""@
    };
    let data_attrs = if attrs.len() == 0 {
        Seq::empty()
    } else {
        " "@ + join(attrs, " "@)
    };
    let prefix_html = if prefixes.len() == 0 {
        Seq::empty()
    } else {
        join(prefixes, " "@) + " "@
    };
    "<li"@ + class_attr + data_attrs + ">"@ + prefix_html + content + "</li>"@
}

/// Appends `x` to a `sep`-joined list whose parts so far are `parts`.
fn join_push(out: &mut String, any: bool, x: &str, sep: &str, Ghost(parts): Ghost<Seq<Seq<char>>>)
    requires
        old(out)@ == join(parts, sep@),
        any == (parts.len() > 0),
    ensures
        final(out)@ == join(parts.push(x@), sep@),
{
    assert(parts.push(x@).drop_last() == parts);
    if any {
        out.append(sep);
    }
    out.append(x);
}

/// Renders a list item from its rendered text and its extensions.
fn format_nestable(content: &str, extensions: &Vec<Extension>) -> (r: String)
    ensures
        r@ == list_item_html(content@, extensions@),
{
    let mut classes = String::new();
    let mut attrs = String::new();
    let mut prefix = String::new();
    let mut any_class = false;
    let mut any_attr = false;
    let mut any_prefix = false;
    let mut i: usize = 0;
    while i < extensions.len()
        invariant
            i <= extensions@.len(),
            classes@ == join(item_classes(extensions@.take(i as int)), " "@),
            attrs@ == join(item_attributes(extensions@.take(i as int)), " "@),
            prefix@ == join(item_prefixes(extensions@.take(i as int)), " "@),
            any_class == (item_classes(extensions@.take(i as int)).len() > 0),
            any_attr == (item_attributes(extensions@.take(i as int)).len() > 0),
            any_prefix == (item_prefixes(extensions@.take(i as int)).len() > 0),
        decreases extensions.len() - i,
    {
        let ghost pre = extensions@.take(i as int);
        assert(extensions@.take(i + 1).drop_last() == pre);
        assert(extensions@.take(i + 1).last() == extensions@[i as int]);
        match &extensions[i] {
            Extension::Todo(status) => {
                if let TodoStatus::Recurring(_) = status {
                join_push(&mut classes, any_class, "todo-recurring", " ", Ghost(item_classes(pre)));
                    any_class = true;
                }
                join_push(&mut prefix, any_prefix, todo_html(status), " ", Ghost(item_prefixes(pre)));
                any_prefix = true;
            },
            Extension::Priority(priority) => {
                let mut c = String::from_str("priority-");
                let s = into_slug(priority.as_str());
                c.append(s.as_str());
                join_push(&mut classes, any_class, c.as_str(), " ", Ghost(item_classes(pre)));
                any_class = true;
                let a = data_attribute("data-priority=\"", priority.as_str());
                join_push(&mut attrs, any_attr, a.as_str(), " ", Ghost(item_attributes(pre)));
                any_attr = true;
            },
            Extension::Timestamp(t) => {
                let a = data_attribute("data-timestamp=\"", t.as_str());
                join_push(&mut attrs, any_attr, a.as_str(), " ", Ghost(item_attributes(pre)));
                any_attr = true;
            },
            Extension::DueDate(d) => {
                let a = data_attribute("data-due=\"", d.as_str());
                join_push(&mut attrs, any_attr, a.as_str(), " ", Ghost(item_attributes(pre)));
                any_attr = true;
            },
            Extension::StartDate(d) => {
                let a = data_attribute("data-start=\"", d.as_str());
                join_push(&mut attrs, any_attr, a.as_str(), " ", Ghost(item_attributes(pre)));
                any_attr = true;
            },
        }
        i = i + 1;
    }
    assert(extensions@.take(extensions@.len() as int) == extensions@);
    let mut r = String::from_str("<li");
    if any_class {
        r.append(" class=\"");
        r.append(classes.as_str());
        r.append("\"");
    }
    if any_attr {
        r.append(" ");
        r.append(attrs.as_str());
    }
    r.append(">");
    if any_prefix {
        r.append(prefix.as_str());
        r.append(" ");
    }
    r.append(content);
    r.append("</li>");
    r
}

/// `name="value"` with the value escaped; `head` holds the name and the opening quote.
fn data_attribute(head: &str, value: &str) -> (r: String)
    ensures
        r@ == head@ + escaped(value@) + "\""@,
{
    let mut r = String::from_str(head);
    let e = escape_html(value);
    r.append(e.as_str());
    r.append("\"");
    r
}

/// The list item for an item node, or nothing when its text is blank or not a paragraph.
pub open spec fn nestable_html(text: FlatNode, exts: Seq<Extension>) -> Option<Seq<char>> {
    match text {
        FlatNode::Paragraph(segments) => {
            let content = segments_html(segments@);
            if is_blank(content) {
                None
            } else {
                Some(list_item_html(content, exts))
            }
        },
        FlatNode::Other => None,
    }
}

/// Renders one list or quote item.
pub fn nestable_modifier(text: &FlatNode, extensions: &Vec<Extension>) -> (r: Option<String>)
    ensures
        match r {
            Some(s) => nestable_html(*text, extensions@) == Some(s@),
            None => nestable_html(*text, extensions@) is None,
        },
{
    match text {
        FlatNode::Paragraph(segments) => {
            let content = convert_segments(segments);
            if blank(content.as_str()) {
                None
            } else {
                Some(format_nestable(content.as_str(), extensions))
            }
        },
        FlatNode::Other => None,
    }
}

/// The paragraph that one line of a block body renders to, if any.
pub open spec fn flat_paragraph_html(node: FlatNode) -> Seq<char> {
    match node {
        FlatNode::Paragraph(segments) => match paragraph_html(segments@) {
            Some(p) => p,
            None => Seq::empty(),
        },
        FlatNode::Other => Seq::empty(),
    }
}

/// The body of a rangeable block: its non-blank paragraphs, one after another.
pub open spec fn flat_body_html(nodes: Seq<FlatNode>) -> Seq<char>
    decreases nodes.len(),
{
    if nodes.len() == 0 {
        Seq::empty()
    } else {
        flat_body_html(nodes.drop_last()) + flat_paragraph_html(nodes.last())
    }
}

/// A definition, footnote or table from its rendered title and body; the title is escaped.
pub open spec fn rangeable_html(kind: RangeableKind, title: Seq<char>, body: Seq<char>) -> Seq<char> {
    match kind {
        RangeableKind::Definition => "<dl><dt>"@ + escaped(title) + "</dt><dd>"@ + body + "</dd></dl>"@,
        RangeableKind::Footnote => "<aside id=\"footnote-"@ + escaped(slug(title))
            + "\" class=\"footnote\"><strong>"@ + escaped(title) + "</strong><p>"@ + body
            + "</p></aside>"@,
        RangeableKind::Table => "<table><caption>"@ + escaped(title) + "</caption><tbody>"@ + body
            + "</tbody></table>"@,
    }
}

/// Renders a definition, footnote or table block.
pub fn rangeable_modifier(kind: &RangeableKind, title: &Vec<Segment>, content: &Vec<FlatNode>) -> (r: String)
    ensures
        r@ == rangeable_html(*kind, segments_html(title@), flat_body_html(content@)),
{
    let title = convert_segments(title);
    let mut body = String::new();
    let mut i: usize = 0;
    while i < content.len()
        invariant
            i <= content@.len(),
            body@ == flat_body_html(content@.take(i as int)),
        decreases content.len() - i,
    {
        assert(content@.take(i + 1).drop_last() == content@.take(i as int));
        match &content[i] {
            FlatNode::Paragraph(segments) => {
                if let Some(p) = paragraph(segments) {
                    body.append(p.as_str());
                }
            },
            FlatNode::Other => {},
        }
        i = i + 1;
    }
    assert(content@.take(content@.len() as int) == content@);
    let t = escape_html(title.as_str());
    match kind {
        RangeableKind::Definition => {
            let mut r = String::from_str("<dl><dt>");
            r.append(t.as_str());
            r.append("</dt><dd>");
            r.append(body.as_str());
            r.append("</dd></dl>");
            r
        },
        RangeableKind::Footnote => {
            let id = into_slug(title.as_str());
            let e = escape_html(id.as_str());
            let mut r = String::from_str("<aside id=\"footnote-");
            r.append(e.as_str());
            r.append("\" class=\"footnote\"><strong>");
            r.append(t.as_str());
            r.append("</strong><p>");
            r.append(body.as_str());
            r.append("</p></aside>");
            r
        },
        RangeableKind::Table => {
            let mut r = String::from_str("<table><caption>");
            r.append(t.as_str());
            r.append("</caption><tbody>");
            r.append(body.as_str());
            r.append("</tbody></table>");
            r
        },
    }
}

/// The index of the first line feed of `s`, or its length when it has none.
pub open spec fn line_end(s: Seq<char>) -> nat
    decreases s.len(),
{
    if s.len() == 0 {
        0
    } else if s[0] == '\n' {
        0
    } else {
        1 + line_end(s.skip(1))
    }
}

/// A line without the carriage return that ended it.
pub open spec fn strip_cr(line: Seq<char>) -> Seq<char> {
    if line.len() > 0 && line.last() == '\r' {
        line.drop_last()
    } else {
        line
    }
}

/// The lines of `s`, as `str::lines` gives them: split at `\n` or `\r\n`, the last
/// line ending being optional.
pub open spec fn lines_of(s: Seq<char>) -> Seq<Seq<char>>
    decreases s.len(),
{
    let k = line_end(s);
    if s.len() == 0 {
        Seq::empty()
    } else if k >= s.len() {
        seq![s]
    } else {
        seq![strip_cr(s.take(k as int))] + lines_of(s.skip((k + 1) as int))
    }
}

/// Each line wrapped in a `line` span, one after another.
pub open spec fn wrapped_lines(lines: Seq<Seq<char>>) -> Seq<char>
    decreases lines.len(),
{
    if lines.len() == 0 {
        Seq::empty()
    } else {
        "<span class=\"line\">"@ + lines[0] + "</span>"@ + wrapped_lines(lines.skip(1))
    }
}

proof fn lemma_line_end(s: Seq<char>, n: int)
    requires
        0 <= n <= s.len(),
        forall|k: int| 0 <= k < n ==> s[k] != '\n',
        n == s.len() || s[n] == '\n',
    ensures
        line_end(s) == n,
    decreases n,
{
    if n > 0 {
        lemma_line_end(s.skip(1), n - 1);
    }
}

fn span_line(out: &mut String, cs: &Vec<char>, from: usize, to: usize)
    requires
        from <= to <= cs@.len(),
    ensures
        final(out)@ == old(out)@ + "<span class=\"line\">"@ + cs@.subrange(from as int, to as int)
            + "</span>"@,
{
    let line = string_of_range(cs, from, to);
    out.append("<span class=\"line\">");
    out.append(line.as_str());
    out.append("</span>");
}

/// Wraps each line of `html` in `<span class="line">`, so that lines can be styled one by one.
pub fn wrap_lines(html: &str) -> (r: String)
    ensures
        r@ == wrapped_lines(lines_of(html@)),
{
    let cs = chars_of(html);
    let mut out = String::new();
    let mut start: usize = 0;
    let mut i: usize = 0;
    assert(html@.skip(0) == html@);
    while i < cs.len()
        invariant
            cs@ == html@,
            start <= i <= cs@.len(),
            forall|k: int| start <= k < i ==> cs@[k] != '\n',
            out@ + wrapped_lines(lines_of(html@.skip(start as int))) == wrapped_lines(lines_of(html@)),
        decreases cs.len() - i,
    {
        if cs[i] == '\n' {
            let ghost rest = html@.skip(start as int);
            proof {
                lemma_line_end(rest, i - start);
                assert(rest.skip(i - start + 1) == html@.skip(i + 1));
                assert(rest.take(i - start) == cs@.subrange(start as int, i as int));
            }
            let ghost before = out@;
            let end = if i > start && cs[i - 1] == '\r' {
                i - 1
            } else {
                i
            };
            assert(strip_cr(rest.take(i - start)) == cs@.subrange(start as int, end as int));
            span_line(&mut out, &cs, start, end);
            proof {
                let first = strip_cr(rest.take(i - start));
                let later = lines_of(html@.skip(i + 1));
                assert(lines_of(rest) == seq![first] + later);
                assert((seq![first] + later)[0] == first);
                assert((seq![first] + later).skip(1) == later);
            }
            assert(wrapped_lines(lines_of(rest)) == "<span class=\"line\">"@ + cs@.subrange(start as int, end as int) + "</span>"@ + wrapped_lines(lines_of(html@.skip(i + 1))));
            start = i + 1;
        }
        i = i + 1;
    }
    let ghost rest = html@.skip(start as int);
    if start < cs.len() {
        proof {
            lemma_line_end(rest, rest.len() as int);
            assert(rest == cs@.subrange(start as int, cs.len() as int));
            assert(lines_of(rest) == seq![rest]);
            assert(seq![rest].skip(1) == Seq::<Seq<char>>::empty());
            assert(wrapped_lines(seq![rest]) == "<span class=\"line\">"@ + rest + "</span>"@ + wrapped_lines(Seq::<Seq<char>>::empty()));
        }
        span_line(&mut out, &cs, start, cs.len());
    } else {
        assert(rest.len() == 0);
    }
    out
}

/// What `textwrap::dedent` returns for a text.
pub uninterp spec fn dedent_of(s: Seq<char>) -> Seq<char>;

/// What arborium's highlighter returns for a language name and a source text:
/// the highlighted HTML, or nothing when it cannot highlight the language.
pub uninterp spec fn highlighted(language: Seq<char>, source: Seq<char>) -> Option<Seq<char>>;

/// Relies on `textwrap::dedent`, which removes the leading white space common to all
/// non-blank lines; the result depends on the text alone.
#[verifier::external_body]
fn dedent(s: &str) -> (r: String)
    ensures
        r@ == dedent_of(s@),
{
    textwrap::dedent(s)
}

/// Relies on `arborium::Highlighter::highlight` of a new highlighter: HTML for a
/// language that it supports, an error otherwise; the result depends on the two texts alone.
#[verifier::external_body]
fn highlight(language: &str, source: &str) -> (r: Option<String>)
    ensures
        match r {
            Some(h) => highlighted(language@, source@) == Some(h@),
            None => highlighted(language@, source@) is None,
        },
{
    arborium::Highlighter::new().highlight(language, source).ok()
}

/// The language of a code block: its first parameter, or `text` when that is missing or empty.
pub open spec fn code_language(parameters: Seq<String>) -> Seq<char> {
    if parameters.len() > 0 && parameters[0]@.len() > 0 {
        parameters[0]@
    } else {
        "text"@
    }
}

/// A code block from its language, its dedented code and what the highlighter gave:
/// highlighted lines when there is a result, escaped plain lines otherwise.
pub open spec fn code_html(language: Seq<char>, code: Seq<char>, highlighted: Option<Seq<char>>) -> Seq<char> {
    match highlighted {
        Some(h) => "<pre class=\"arborium lang-"@ + language + "\"><code>"@ + wrapped_lines(
            lines_of(h),
        ) + "</code></pre>"@,
        None => "<pre><code>"@ + wrapped_lines(lines_of(escaped(code))) + "</code></pre>"@,
    }
}

/// Renders a code block once the highlighter has been asked.
pub fn code_block(language: &str, code: &str, highlighted: Option<String>) -> (r: String)
    ensures
        r@ == code_html(
            language@,
            code@,
            match highlighted {
                Some(h) => Some(h@),
                None => None,
            },
        ),
{
    match highlighted {
        Some(h) => {
            let mut r = String::from_str("<pre class=\"arborium lang-");
            r.append(language);
            r.append("\"><code>");
            let w = wrap_lines(h.as_str());
            r.append(w.as_str());
            r.append("</code></pre>");
            r
        },
        None => {
            let mut r = String::from_str("<pre><code>");
            let e = escape_html(code);
            let w = wrap_lines(e.as_str());
            r.append(w.as_str());
            r.append("</code></pre>");
            r
        },
    }
}

/// Where an image's path points: absolute and `http` paths as they are, others relative.
pub open spec fn image_source(path: Seq<char>) -> Seq<char> {
    if starts_with(path, "/"@) || starts_with(path, "http"@) {
        path
    } else {
        "./"@ + path
    }
}

/// An image element from the block's parameters and text, or nothing without a path.
pub open spec fn image_html(parameters: Seq<String>, content: Seq<char>) -> Option<Seq<char>> {
    if parameters.len() > 0 && parameters[0]@.len() > 0 {
        Some("<img src=\""@ + escaped(image_source(parameters[0]@)) + "\" alt=\""@ + escaped(
            trimmed(content),
        ) + "\" />"@)
    } else {
        None
    }
}

/// Whether a tag's dot path is the single name `n`.
pub open spec fn is_tag(name: Seq<String>, n: Seq<char>) -> bool {
    name.len() == 1 && name[0]@ == n
}

/// Whether a tag's dot path is `document.meta`.
pub open spec fn is_meta_tag(name: Seq<String>) -> bool {
    name.len() == 2 && name[0]@ == "document"@ && name[1]@ == "meta"@
}

/// The HTML of a verbatim block that is not an inline component: code, image,
/// nothing for metadata, and an escaped `verbatim` division for any other tag.
pub open spec fn verbatim_html(name: Seq<String>, parameters: Seq<String>, content: Seq<char>) -> Option<Seq<char>> {
    if is_tag(name, "code"@) {
        let language = code_language(parameters);
        let code = dedent_of(content);
        Some(code_html(language, code, highlighted(language, code)))
    } else if is_tag(name, "image"@) {
        image_html(parameters, content)
    } else if is_meta_tag(name) {
        None
    } else {
        Some("<div class=\"verbatim\">"@ + escaped(content) + "</div>"@)
    }
}

/// Whether a tag's dot path is the single name `n`.
pub fn tag_is(name: &Vec<String>, n: &str) -> (r: bool)
    ensures
        r == is_tag(name@, n@),
{
    name.len() == 1 && same_text(name[0].as_str(), n)
}

/// Whether a tag's dot path is `document.meta`.
pub fn meta_tag(name: &Vec<String>) -> (r: bool)
    ensures
        r == is_meta_tag(name@),
{
    name.len() == 2 && same_text(name[0].as_str(), "document") && same_text(name[1].as_str(), "meta")
}

/// Renders a verbatim block that is not an inline component.
pub fn verbatim_tag(name: &Vec<String>, parameters: &Vec<String>, content: &str) -> (r: Option<String>)
    ensures
        match r {
            Some(s) => verbatim_html(name@, parameters@, content@) == Some(s@),
            None => verbatim_html(name@, parameters@, content@) is None,
        },
{
    if tag_is(name, "code") {
        let code = dedent(content);
        let language = if parameters.len() > 0 && char_count(parameters[0].as_str()) > 0 {
            parameters[0].as_str()
        } else {
            "text"
        };
        let h = highlight(language, code.as_str());
        Some(code_block(language, code.as_str(), h))
    } else if tag_is(name, "image") {
        if parameters.len() > 0 && char_count(parameters[0].as_str()) > 0 {
            let path = parameters[0].as_str();
            let mut src = String::new();
            if has_prefix(path, "/") || has_prefix(path, "http") {
                src.append(path);
            } else {
                src.append("./");
                src.append(path);
            }
            let mut r = String::from_str("<img src=\"");
            let e = escape_html(src.as_str());
            r.append(e.as_str());
            r.append("\" alt=\"");
            let t = trim(content);
            let a = escape_html(t.as_str());
            r.append(a.as_str());
            r.append("\" />");
            Some(r)
        } else {
            None
        }
    } else if meta_tag(name) {
        None
    } else {
        let mut r = String::from_str("<div class=\"verbatim\">");
        let e = escape_html(content);
        r.append(e.as_str());
        r.append("</div>");
        Some(r)
    }
}

} // verus!

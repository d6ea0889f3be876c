//! Tabs: immutable snapshots of one displayed page — URL, user-facing
//! address text, title and parsed document — and the built-in error and
//! blank pages, produced from opaque templates by literal placeholder
//! substitution.

use crate::gemtext::{
    parse_models, sat_id, text_lines, text_lines_exec, GemText, SequenceGenerator,
};
use crate::text::{dec_digits, replace_all, replace_all_spec, trim, trim_spec, u8_to_dec};
use crate::urls::{about_new_url, display_spec, display_url_of, Url};
use vstd::prelude::*;

verus! {

/// A protocol-level demand that the user supply input before the request
/// can complete; `sensitive` asks for masked entry.
#[derive(Debug, PartialEq, Eq)]
pub enum ActionRequired {
    Input { prompt: String, sensitive: bool },
}

/// One displayable page. A tab is a value: navigation never mutates an
/// existing tab, it produces a new one.
#[derive(Debug)]
pub struct Tab {
    /// The absolute URL this page was requested under.
    pub url: Url,
    /// The editable, user-facing address text.
    pub display_url: String,
    /// The page title shown on the tab.
    pub title: String,
    /// The parsed document.
    pub content: GemText,
}

/// The text of the error page: the template with every `{{status}}`
/// replaced by the decimal status and then every `{{message}}` replaced by
/// the message.
pub open spec fn error_page_spec(template: Seq<char>, status: int, message: Seq<char>) -> Seq<
    char,
> {
    replace_all_spec(
        replace_all_spec(template, "{{status}}"@, dec_digits(status)),
        "{{message}}"@,
        message,
    )
}

/// Length of the leading heading marker of a line that begins with one:
/// up to three `#` characters, first match as in line classification.
pub open spec fn heading_marker_len(line: Seq<char>) -> int {
    if line.len() >= 3 && line[1] == '#' && line[2] == '#' {
        3
    } else if line.len() >= 2 && line[1] == '#' {
        2
    } else {
        1
    }
}

/// Title derived from the first line that begins with a heading marker: the
/// whole leading marker stripped, surrounding whitespace trimmed; none when
/// no heading line exists or the first one trims to nothing.
pub open spec fn title_from_lines(lines: Seq<Seq<char>>) -> Option<Seq<char>>
    decreases lines.len(),
{
    if lines.len() == 0 {
        None
    } else if lines[0].len() > 0 && lines[0][0] == '#' {
        let t = trim_spec(lines[0].skip(heading_marker_len(lines[0])));
        if t.len() > 0 {
            Some(t)
        } else {
            None
        }
    } else {
        title_from_lines(lines.skip(1))
    }
}

/// Title derived from a markup body, per [`title_from_lines`] of its lines.
pub open spec fn title_from_body(body: Seq<char>) -> Option<Seq<char>> {
    title_from_lines(text_lines(body))
}

/// Finds the derived title of a markup body.
pub fn derive_title(body: &str) -> (r: Option<String>)
    ensures
        r is Some <==> title_from_body(body@) is Some,
        r is Some ==> r->0@ == title_from_body(body@)->0,
{
    let lines = text_lines_exec(body);
    let ghost lmodels = text_lines(body@);
    let mut j: usize = 0;
    proof {
        assert(lmodels.skip(0) =~= lmodels);
    }
    while j < lines.len()
        invariant
            0 <= j <= lines.len(),
            crate::gemtext::views_of(lines@) == lmodels,
            title_from_body(body@) == title_from_lines(lmodels.skip(j as int)),
        decreases lines.len() - j,
    {
        let line = lines[j].as_str();
        let n = line.unicode_len();
        proof {
            assert(crate::gemtext::views_of(lines@)[j as int] == line@);
        }
        if n > 0 && line.get_char(0) == '#' {
            let m: usize = if n >= 3 && line.get_char(1) == '#' && line.get_char(2) == '#' {
                3
            } else if n >= 2 && line.get_char(1) == '#' {
                2
            } else {
                1
            };
            let t = trim(line.substring_char(m, n));
            proof {
                assert(m as int == heading_marker_len(line@));
                assert(line@.subrange(m as int, n as int) =~= line@.skip(
                    heading_marker_len(line@),
                ));
            }
            if t.unicode_len() > 0 {
                return Some(String::from_str(t));
            } else {
                return None;
            }
        }
        proof {
            assert(lmodels.skip(j as int).skip(1) =~= lmodels.skip(j + 1));
        }
        j += 1;
    }
    proof {
        assert(lmodels.skip(lines@.len() as int) =~= Seq::<Seq<char>>::empty());
    }
    None
}

impl Tab {
    /// A fresh tab for `url`, not yet filled by any response: its address
    /// text and title are the display form of the URL and its document is
    /// the parse of the empty text.
    pub fn new(url: Url, ids: &mut SequenceGenerator) -> (r: Tab)
        ensures
            r.url == url,
            r.display_url@ == display_spec(url.serialized@),
            r.title@ == display_spec(url.serialized@),
            r.content.doc_lines() == parse_models(""@),
            r.content.ids_from(old(ids).next),
            final(ids).next == sat_id(old(ids).next, r.content@.len() as int),
    {
        let title = display_url_of(&url);
        let display = title.clone();
        let content = GemText::new("", ids);
        Tab { url, display_url: display, title, content }
    }

    /// The built-in error page for `url`: the template's placeholders are
    /// substituted with the status and message, the result parsed as markup,
    /// and the message becomes the title.
    pub fn new_error(
        url: Url,
        status: u8,
        error: String,
        template: &str,
        ids: &mut SequenceGenerator,
    ) -> (r: Tab)
        ensures
            r.url == url,
            r.display_url@ == display_spec(url.serialized@),
            r.title@ == error@,
            r.content.doc_lines() == parse_models(
                error_page_spec(template@, status as int, error@),
            ),
            r.content.ids_from(old(ids).next),
            final(ids).next == sat_id(old(ids).next, r.content@.len() as int),
    {
        let display_url = display_url_of(&url);
        proof {
            reveal_strlit("{{status}}");
            reveal_strlit("{{message}}");
        }
        let with_status = replace_all(template, "{{status}}", u8_to_dec(status).as_str());
        let page = replace_all(with_status.as_str(), "{{message}}", error.as_str());
        let content = GemText::new(page.as_str(), ids);
        Tab { url, display_url, title: error, content }
    }

    /// The built-in blank page under the internal pseudo-scheme: empty
    /// address text, a fixed title, and the given template as its document.
    pub fn new_default(template: &str, ids: &mut SequenceGenerator) -> (r: Tab)
        ensures
            r.url.serialized@ == "about://new"@,
            r.url.scheme@ == "about"@,
            r.url.host@ == "new"@,
            r.display_url@ == Seq::<char>::empty(),
            r.title@ == "New Tab"@,
            r.content.doc_lines() == parse_models(template@),
            r.content.ids_from(old(ids).next),
            final(ids).next == sat_id(old(ids).next, r.content@.len() as int),
    {
        let content = GemText::new(template, ids);
        Tab {
            url: about_new_url(),
            display_url: String::new(),
            title: String::from_str("New Tab"),
            content,
        }
    }

    /// The tab's URL.
    pub fn url(&self) -> (r: &Url)
        ensures
            *r == self.url,
    {
        &self.url
    }

    /// The tab's title.
    pub fn title(&self) -> (r: &str)
        ensures
            r@ == self.title@,
    {
        self.title.as_str()
    }

    /// The tab's document.
    pub fn content(&self) -> (r: &GemText)
        ensures
            *r == self.content,
    {
        &self.content
    }

    /// Normalizes the address text once a navigation completes: blank for
    /// an internal page, otherwise the display form of the tab's URL.
    pub fn normalize_display(&mut self)
        ensures
            final(self).url == old(self).url,
            final(self).title == old(self).title,
            final(self).content == old(self).content,
            final(self).display_url@ == (if old(self).url.scheme@ == "about"@ {
                Seq::<char>::empty()
            } else {
                display_spec(old(self).url.serialized@)
            }),
    {
        proof {
            reveal_strlit("about");
        }
        if crate::text::str_eq(self.url.scheme.as_str(), "about") {
            self.display_url = String::new();
        } else {
            self.display_url = display_url_of(&self.url);
        }
    }
}

} // verus!

//! A scanner over raw HTML payload text that locates `<img>` tags and
//! extracts their `src` and `alt` attribute values.
//!
//! An image tag opens with `<img`, case-insensitively and followed by a
//! non-word character, and runs to the first `>`. Within a tag, an
//! attribute assignment is the attribute name at a word boundary,
//! optional whitespace, `=`, optional whitespace, and a double-quoted,
//! single-quoted or bare unquoted value; the first assignment found
//! wins. Tags without a non-empty `src` value are dropped. Word and
//! case classification is ASCII.

use vstd::prelude::*;
use crate::text::find_char;
use crate::text::find_char_in;
use crate::text::first_non_ws;
use crate::text::is_ws;
use crate::text::is_ws_char;
use crate::text::chars_sub_vec;
use crate::text::chars_to_string;
use crate::text::to_chars;

verus! {

/// One extracted image: its source and its alternative text.
#[derive(Clone, Debug)]
pub struct HtmlImage {
    pub src: String,
    pub alt: String,
}

/// The model of an extracted image.
pub ghost struct HtmlImageModel {
    pub src: Seq<char>,
    pub alt: Seq<char>,
}

impl View for HtmlImage {
    type V = HtmlImageModel;

    open spec fn view(&self) -> HtmlImageModel {
        HtmlImageModel { src: self.src@, alt: self.alt@ }
    }
}

/// The model of a sequence of extracted images.
pub open spec fn imgs_view(v: Seq<HtmlImage>) -> Seq<HtmlImageModel> {
    v.map_values(|im: HtmlImage| im@)
}

/// Case-insensitive match of `a` against the lowercase letter or other
/// character `b`, ASCII only.
pub open spec fn eq_ci(a: char, b: char) -> bool {
    a == b || ('a' <= b && b <= 'z' && a as u32 + 32 == b as u32)
}

fn eq_ci_char(a: char, b: char) -> (r: bool)
    ensures
        r == eq_ci(a, b),
{
    a == b || ('a' <= b && b <= 'z' && a as u32 + 32 == b as u32)
}

/// An ASCII word character: a letter, a digit or an underscore.
pub open spec fn is_word(c: char) -> bool {
    ('a' <= c && c <= 'z') || ('A' <= c && c <= 'Z') || ('0' <= c && c <= '9') || c == '_'
}

fn is_word_char(c: char) -> (r: bool)
    ensures
        r == is_word(c),
{
    ('a' <= c && c <= 'z') || ('A' <= c && c <= 'Z') || ('0' <= c && c <= '9') || c == '_'
}

/// A character an unquoted attribute value may hold: anything but
/// whitespace, quotes, `=`, angle brackets and backquote.
pub open spec fn is_bare(c: char) -> bool {
    !is_ws(c) && c != '"' && c != '\'' && c != '=' && c != '<' && c != '>' && c != '`'
}

fn is_bare_char(c: char) -> (r: bool)
    ensures
        r == is_bare(c),
{
    !is_ws_char(c) && c != '"' && c != '\'' && c != '=' && c != '<' && c != '>' && c != '`'
}

/// The end of a run of bare-value characters starting at `i`.
pub open spec fn bare_end(t: Seq<char>, i: int) -> int
    decreases t.len() - i when 0 <= i
{
    if i >= t.len() {
        t.len() as int
    } else if is_bare(t[i]) {
        bare_end(t, i + 1)
    } else {
        i
    }
}

fn bare_end_in(t: &Vec<char>, i: usize) -> (r: usize)
    requires
        i <= t@.len(),
    ensures
        r == bare_end(t@, i as int),
        i <= r <= t@.len(),
{
    let mut j = i;
    while j < t.len()
        invariant
            i <= j <= t@.len(),
            bare_end(t@, i as int) == bare_end(t@, j as int),
        decreases t@.len() - j,
    {
        if !is_bare_char(t[j]) {
            return j;
        }
        j = j + 1;
    }
    j
}

fn skip_ws_in(t: &Vec<char>, i: usize) -> (r: usize)
    requires
        i <= t@.len(),
    ensures
        r == first_non_ws(t@, i as int),
        i <= r <= t@.len(),
{
    let mut j = i;
    while j < t.len()
        invariant
            i <= j <= t@.len(),
            first_non_ws(t@, i as int) == first_non_ws(t@, j as int),
        decreases t@.len() - j,
    {
        if !is_ws_char(t[j]) {
            return j;
        }
        j = j + 1;
    }
    j
}

/// Whether `name` occurs at position `i` of `t`, case-insensitively.
pub open spec fn name_at(t: Seq<char>, i: int, name: Seq<char>) -> bool {
    forall|k: int| 0 <= k < name.len() ==> eq_ci(t[i + k], name[k])
}

fn name_at_in(t: &Vec<char>, i: usize, name: &Vec<char>) -> (r: bool)
    requires
        i + name@.len() <= t@.len(),
    ensures
        r == name_at(t@, i as int, name@),
{
    let n = t.len();
    let mut k: usize = 0;
    while k < name.len()
        invariant
            k <= name@.len(),
            n == t@.len(),
            i + name@.len() <= t@.len(),
            forall|m: int| 0 <= m < k ==> eq_ci(t@[i + m], name@[m]),
        decreases name@.len() - k,
    {
        if !eq_ci_char(t[i + k], name[k]) {
            return false;
        }
        k = k + 1;
    }
    true
}

/// The value of an attribute assignment of `name` whose name starts at
/// position `i` of the tag text `t`, or nothing when no assignment of
/// `name` matches there.
pub open spec fn attr_at(t: Seq<char>, i: int, name: Seq<char>) -> Option<Seq<char>> {
    if !(0 <= i && i + name.len() <= t.len()) {
        None
    } else if !(i == 0 || !is_word(t[i - 1])) {
        None
    } else if !name_at(t, i, name) {
        None
    } else {
        let p = first_non_ws(t, i + name.len());
        if p < t.len() && t[p] == '=' {
            let q = first_non_ws(t, p + 1);
            if q < t.len() && t[q] == '"' {
                match find_char(t, '"', q + 1) {
                    Some(e) => Some(t.subrange(q + 1, e)),
                    None => None,
                }
            } else if q < t.len() && t[q] == '\'' {
                match find_char(t, '\'', q + 1) {
                    Some(e) => Some(t.subrange(q + 1, e)),
                    None => None,
                }
            } else if q < t.len() && is_bare(t[q]) {
                Some(t.subrange(q, bare_end(t, q)))
            } else {
                None
            }
        } else {
            None
        }
    }
}

/// Runtime attribute match at one position, returning the bounds of
/// the value within `t`.
fn attr_at_in(t: &Vec<char>, i: usize, name: &Vec<char>) -> (r: Option<(usize, usize)>)
    requires
        i < t@.len(),
    ensures
        match r {
            Some(b) => b.0 <= b.1 <= t@.len() && attr_at(t@, i as int, name@) == Some(
                t@.subrange(b.0 as int, b.1 as int),
            ),
            None => attr_at(t@, i as int, name@) is None,
        },
{
    if t.len() - i < name.len() {
        return None;
    }
    if !(i == 0 || !is_word_char(t[i - 1])) {
        return None;
    }
    if !name_at_in(t, i, name) {
        return None;
    }
    let p = skip_ws_in(t, i + name.len());
    if !(p < t.len() && t[p] == '=') {
        return None;
    }
    let q = skip_ws_in(t, p + 1);
    if q < t.len() && t[q] == '"' {
        match find_char_in(t, '"', q + 1) {
            Some(e) => {
                proof {
                    crate::text::lemma_find_char(t@, '"', q + 1);
                }
                Some((q + 1, e))
            },
            None => None,
        }
    } else if q < t.len() && t[q] == '\'' {
        match find_char_in(t, '\'', q + 1) {
            Some(e) => {
                proof {
                    crate::text::lemma_find_char(t@, '\'', q + 1);
                }
                Some((q + 1, e))
            },
            None => None,
        }
    } else if q < t.len() && is_bare_char(t[q]) {
        let e = bare_end_in(t, q);
        Some((q, e))
    } else {
        None
    }
}

/// The value of the first attribute assignment of `name` in `t`,
/// scanning match positions left to right.
pub open spec fn find_attr(t: Seq<char>, name: Seq<char>, i: int) -> Option<Seq<char>>
    decreases t.len() - i when 0 <= i
{
    if i >= t.len() {
        None
    } else if attr_at(t, i, name) is Some {
        attr_at(t, i, name)
    } else {
        find_attr(t, name, i + 1)
    }
}

fn find_attr_in(t: &Vec<char>, name: &Vec<char>) -> (r: Option<String>)
    ensures
        match r {
            Some(s) => find_attr(t@, name@, 0) == Some(s@),
            None => find_attr(t@, name@, 0) is None,
        },
{
    let mut i: usize = 0;
    while i < t.len()
        invariant
            i <= t@.len(),
            find_attr(t@, name@, 0) == find_attr(t@, name@, i as int),
        decreases t@.len() - i,
    {
        match attr_at_in(t, i, name) {
            Some(b) => {
                return Some(chars_to_string(t, b.0, b.1));
            },
            None => {},
        }
        i = i + 1;
    }
    None
}

/// The name of the `src` attribute.
pub open spec fn src_name() -> Seq<char> {
    seq!['s', 'r', 'c']
}

/// The name of the `alt` attribute.
pub open spec fn alt_name() -> Seq<char> {
    seq!['a', 'l', 't']
}

/// The source of an image tag: the first `src` value, provided it is
/// non-empty; a tag without one yields nothing.
pub open spec fn tag_src(t: Seq<char>) -> Option<Seq<char>> {
    match find_attr(t, src_name(), 0) {
        Some(v) => if v.len() > 0 {
            Some(v)
        } else {
            None
        },
        None => None,
    }
}

/// The alternative text of an image tag: the first `alt` value, or the
/// empty string when absent.
pub open spec fn tag_alt(t: Seq<char>) -> Seq<char> {
    match find_attr(t, alt_name(), 0) {
        Some(v) => v,
        None => Seq::empty(),
    }
}

fn src_name_vec() -> (v: Vec<char>)
    ensures
        v@ == src_name(),
{
    let mut v: Vec<char> = Vec::new();
    v.push('s');
    v.push('r');
    v.push('c');
    proof {
        assert(v@ =~= src_name());
    }
    v
}

fn alt_name_vec() -> (v: Vec<char>)
    ensures
        v@ == alt_name(),
{
    let mut v: Vec<char> = Vec::new();
    v.push('a');
    v.push('l');
    v.push('t');
    proof {
        assert(v@ =~= alt_name());
    }
    v
}

fn tag_src_in(t: &Vec<char>) -> (r: Option<String>)
    ensures
        match r {
            Some(s) => tag_src(t@) == Some(s@),
            None => tag_src(t@) is None,
        },
{
    let name = src_name_vec();
    match find_attr_in(t, &name) {
        Some(s) => {
            if s.as_str().unicode_len() > 0 {
                Some(s)
            } else {
                None
            }
        },
        None => None,
    }
}

fn tag_alt_in(t: &Vec<char>) -> (r: String)
    ensures
        r@ == tag_alt(t@),
{
    let name = alt_name_vec();
    match find_attr_in(t, &name) {
        Some(s) => s,
        None => String::new(),
    }
}

/// Whether an image tag opens at position `i`: `<img`, case
/// insensitive, followed by a non-word character or the end of the
/// text.
pub open spec fn img_open_at(s: Seq<char>, i: int) -> bool {
    &&& 0 <= i
    &&& i + 4 <= s.len()
    &&& s[i] == '<'
    &&& eq_ci(s[i + 1], 'i')
    &&& eq_ci(s[i + 2], 'm')
    &&& eq_ci(s[i + 3], 'g')
    &&& (i + 4 == s.len() || !is_word(s[i + 4]))
}

fn img_open_in(v: &Vec<char>, i: usize) -> (r: bool)
    requires
        i < v@.len(),
    ensures
        r == img_open_at(v@, i as int),
{
    if v.len() - i < 4 {
        return false;
    }
    if v[i] != '<' || !eq_ci_char(v[i + 1], 'i') || !eq_ci_char(v[i + 2], 'm') || !eq_ci_char(
        v[i + 3],
        'g',
    ) {
        return false;
    }
    if i + 4 == v.len() {
        true
    } else {
        !is_word_char(v[i + 4])
    }
}

/// The images of the payload from position `i` on: at each image tag
/// opening, the tag runs to the first `>`; a tag with a non-empty
/// `src` contributes one entry, and scanning resumes after the tag.
pub open spec fn html_images_from(s: Seq<char>, i: int) -> Seq<HtmlImageModel>
    decreases s.len() - i when 0 <= i
{
    if i >= s.len() {
        Seq::empty()
    } else if img_open_at(s, i) {
        match find_char(s, '>', i + 4) {
            Some(j) => if i + 4 <= j && j < s.len() {
                let tag = s.subrange(i, j + 1);
                let rest = html_images_from(s, j + 1);
                match tag_src(tag) {
                    Some(src) => seq![
                        HtmlImageModel { src, alt: tag_alt(tag) },
                    ] + rest,
                    None => rest,
                }
            } else {
                html_images_from(s, i + 1)
            },
            None => html_images_from(s, i + 1),
        }
    } else {
        html_images_from(s, i + 1)
    }
}

/// All images of a raw HTML payload, in order of appearance.
pub open spec fn html_images(s: Seq<char>) -> Seq<HtmlImageModel> {
    html_images_from(s, 0)
}

proof fn lemma_imgs_view_push(v: Seq<HtmlImage>, x: HtmlImage)
    ensures
        imgs_view(v.push(x)) == imgs_view(v).push(x@),
{
    assert(imgs_view(v.push(x)) =~= imgs_view(v).push(x@));
}

/// Extracts every image of a raw HTML payload, left to right.
pub fn extract_html_images(html: &str) -> (r: Vec<HtmlImage>)
    ensures
        imgs_view(r@) == html_images(html@),
{
    let v = to_chars(html);
    let mut out: Vec<HtmlImage> = Vec::new();
    let mut i: usize = 0;
    while i < v.len()
        invariant
            i <= v@.len(),
            v@ == html@,
            imgs_view(out@) + html_images_from(v@, i as int) == html_images(html@),
        decreases v@.len() - i,
    {
        let mut advanced = false;
        if img_open_in(&v, i) {
            match find_char_in(&v, '>', i + 4) {
                Some(j) => {
                    proof {
                        crate::text::lemma_find_char(v@, '>', i + 4);
                    }
                    let tag = chars_sub_vec(&v, i, j + 1);
                    let ghost prev = out@;
                    match tag_src_in(&tag) {
                        Some(src) => {
                            let alt = tag_alt_in(&tag);
                            let im = HtmlImage { src, alt };
                            proof {
                                lemma_imgs_view_push(prev, im);
                            }
                            out.push(im);
                            proof {
                                assert(imgs_view(out@) + html_images_from(v@, j + 1 as int)
                                    =~= imgs_view(prev) + html_images_from(v@, i as int));
                            }
                        },
                        None => {},
                    }
                    i = j + 1;
                    advanced = true;
                },
                None => {},
            }
        }
        if !advanced {
            i = i + 1;
        }
    }
    proof {
        assert(imgs_view(out@) =~= html_images(html@));
    }
    out
}

} // verus!

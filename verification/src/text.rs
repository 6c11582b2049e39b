//! Inline text: attributed fragments, their container, and the read-only
//! projections (plain-text collection and markdown-style serialization).

use vstd::prelude::*;
use vstd::string::{StrSliceExecFns, StringExecFns};

verus! {

/// Mathematical image of [`TextAttributes`].
pub struct AttrView {
    pub preformatted: bool,
    pub italic: bool,
    pub bold: bool,
    pub heading: Option<u8>,
    pub link: Option<Seq<char>>,
    pub tooltip: Option<Seq<char>>,
    pub annotation: Option<Seq<char>>,
}

impl AttrView {
    /// The attribute set that marks nothing.
    pub open spec fn plain() -> AttrView {
        AttrView {
            preformatted: false,
            italic: false,
            bold: false,
            heading: None,
            link: None,
            tooltip: None,
            annotation: None,
        }
    }
}

/// Mathematical image of [`TextFragment`].
pub struct FragView {
    pub text: Seq<char>,
    pub attrs: AttrView,
}

/// Formatting attributes carried by one text fragment.
#[derive(Clone, Debug)]
pub struct TextAttributes {
    /// Preformatted, code, or mono font.
    pub preformatted: bool,
    /// Italic font.
    pub italic: bool,
    /// Bold font.
    pub bold: bool,
    /// Heading value: none, or 1-6.
    pub heading: Option<u8>,
    /// A link/reference.
    pub link: Option<String>,
    /// An annotated tooltip.
    pub tooltip: Option<String>,
    /// A text annotation.
    pub annotation: Option<String>,
}

/// View of an optional string as an optional character sequence.
pub open spec fn opt_str_view(s: Option<String>) -> Option<Seq<char>> {
    match s {
        Some(v) => Some(v@),
        None => None,
    }
}

impl View for TextAttributes {
    type V = AttrView;

    open spec fn view(&self) -> AttrView {
        AttrView {
            preformatted: self.preformatted,
            italic: self.italic,
            bold: self.bold,
            heading: self.heading,
            link: opt_str_view(self.link),
            tooltip: opt_str_view(self.tooltip),
            annotation: opt_str_view(self.annotation),
        }
    }
}

impl TextAttributes {
    /// Attributes that mark nothing.
    pub fn new() -> (r: TextAttributes)
        ensures
            r@ == AttrView::plain(),
    {
        TextAttributes {
            preformatted: false,
            italic: false,
            bold: false,
            heading: None,
            link: None,
            tooltip: None,
            annotation: None,
        }
    }

    /// Whether no attribute is set at all.
    pub fn is_plain(&self) -> (r: bool)
        ensures
            r == (self@ == AttrView::plain()),
    {
        if self.preformatted {
            return false;
        }
        if self.bold {
            return false;
        }
        if self.italic {
            return false;
        }
        if self.heading.is_some() {
            return false;
        }
        if self.link.is_some() {
            return false;
        }
        if self.tooltip.is_some() {
            return false;
        }
        if self.annotation.is_some() {
            return false;
        }
        proof {
            assert(self@ == AttrView::plain());
        }
        true
    }
}

impl Default for TextAttributes {
    fn default() -> (r: TextAttributes)
        ensures
            r@ == AttrView::plain(),
    {
        TextAttributes::new()
    }
}

/// Copy of an optional string, known to keep its characters.
pub fn clone_opt_string(s: &Option<String>) -> (r: Option<String>)
    ensures
        opt_str_view(r) == opt_str_view(*s),
{
    match s {
        Some(v) => Some(v.clone()),
        None => None,
    }
}

/// Copy of an attribute set, known to keep every attribute.
pub fn clone_attrs(a: &TextAttributes) -> (r: TextAttributes)
    ensures
        r@ == a@,
{
    TextAttributes {
        preformatted: a.preformatted,
        italic: a.italic,
        bold: a.bold,
        heading: a.heading,
        link: clone_opt_string(&a.link),
        tooltip: clone_opt_string(&a.tooltip),
        annotation: clone_opt_string(&a.annotation),
    }
}

/// One run of text with uniform attributes.
#[derive(Clone, Debug)]
pub struct TextFragment {
    /// The visible text of the fragment.
    pub text: String,
    /// The formatting attributes of the fragment.
    pub attributes: TextAttributes,
}

impl View for TextFragment {
    type V = FragView;

    open spec fn view(&self) -> FragView {
        FragView { text: self.text@, attrs: self.attributes@ }
    }
}

impl TextFragment {
    /// A fragment with the given text; absent attributes mean plain text.
    pub fn new(text: &str, attributes: Option<TextAttributes>) -> (r: TextFragment)
        ensures
            r@.text == text@,
            r@.attrs == (match attributes {
                Some(a) => a@,
                None => AttrView::plain(),
            }),
    {
        TextFragment {
            text: String::from_str(text),
            attributes: match attributes {
                Some(attr) => attr,
                None => TextAttributes::new(),
            },
        }
    }

    /// Copy of a fragment, known to keep text and attributes.
    pub fn duplicate(&self) -> (r: TextFragment)
        ensures
            r@ == self@,
    {
        TextFragment { text: self.text.clone(), attributes: clone_attrs(&self.attributes) }
    }
}

/// Concatenation of the visible texts of a fragment sequence, attributes
/// ignored.
pub open spec fn concat_texts(frags: Seq<FragView>) -> Seq<char>
    decreases frags.len(),
{
    if frags.len() == 0 {
        Seq::empty()
    } else {
        concat_texts(frags.drop_last()) + frags.last().text
    }
}

/// Concatenation of the annotations of a fragment sequence; fragments without
/// an annotation contribute nothing.
pub open spec fn concat_annotations(frags: Seq<FragView>) -> Seq<char>
    decreases frags.len(),
{
    if frags.len() == 0 {
        Seq::empty()
    } else {
        concat_annotations(frags.drop_last()) + (match frags.last().attrs.annotation {
            Some(a) => a,
            None => Seq::empty(),
        })
    }
}

/// One step of [`concat_texts`]: extending the prefix by one fragment appends
/// that fragment's text.
pub proof fn lemma_concat_texts_step(frags: Seq<FragView>, i: int)
    requires
        0 <= i < frags.len(),
    ensures
        concat_texts(frags.take(i + 1)) == concat_texts(frags.take(i)) + frags[i].text,
{
    assert(frags.take(i + 1).drop_last() =~= frags.take(i));
    assert(frags.take(i + 1).last() == frags[i]);
}

/// One step of [`concat_annotations`].
pub proof fn lemma_concat_annotations_step(frags: Seq<FragView>, i: int)
    requires
        0 <= i < frags.len(),
    ensures
        concat_annotations(frags.take(i + 1)) == concat_annotations(frags.take(i)) + (
        match frags[i].attrs.annotation {
            Some(a) => a,
            None => Seq::<char>::empty(),
        }),
{
    assert(frags.take(i + 1).drop_last() =~= frags.take(i));
    assert(frags.take(i + 1).last() == frags[i]);
}

/// Collected plain text depends on fragment texts alone: two fragment
/// sequences with the same texts collect to the same characters, whatever
/// their attributes.
pub proof fn lemma_collect_ignores_attributes(a: Seq<FragView>, b: Seq<FragView>)
    requires
        a.len() == b.len(),
        forall|i: int| 0 <= i < a.len() ==> a[i].text == b[i].text,
    ensures
        concat_texts(a) == concat_texts(b),
    decreases a.len(),
{
    if a.len() > 0 {
        lemma_collect_ignores_attributes(a.drop_last(), b.drop_last());
        assert(a.last().text == b.last().text);
    }
}

/// The decorative filler character stripped from minimized text.
pub open spec fn is_filler(c: char) -> bool {
    c == '\u{3000}'
}

/// A character sequence with every filler character removed.
pub open spec fn strip_filler(t: Seq<char>) -> Seq<char> {
    t.filter(|c: char| !is_filler(c))
}

/// Fragment sequence after text cleaning: same attributes, filler stripped
/// from every text.
pub open spec fn clean_frags(frags: Seq<FragView>) -> Seq<FragView> {
    frags.map_values(|f: FragView| FragView { text: strip_filler(f.text), attrs: f.attrs })
}

/// Filler stripping is idempotent: a stripped text holds no filler.
pub proof fn lemma_strip_filler_idempotent(t: Seq<char>)
    ensures
        strip_filler(strip_filler(t)) == strip_filler(t),
{
    let pred = |c: char| !is_filler(c);
    assert forall|i: int| 0 <= i < t.filter(pred).len() implies pred(t.filter(pred)[i]) by {
        t.lemma_filter_pred(pred, i);
    }
    lemma_filter_all_kept(t.filter(pred), pred);
}

/// Text cleaning is idempotent: cleaning a cleaned fragment run changes
/// nothing.
pub proof fn lemma_clean_frags_idempotent(frags: Seq<FragView>)
    ensures
        clean_frags(clean_frags(frags)) == clean_frags(frags),
{
    assert forall|i: int| 0 <= i < frags.len() implies #[trigger] clean_frags(clean_frags(frags))[i]
        == clean_frags(frags)[i] by {
        lemma_strip_filler_idempotent(frags[i].text);
    }
    assert(clean_frags(clean_frags(frags)) =~= clean_frags(frags));
}

/// An ordered run of attributed text fragments.
#[derive(Clone, Debug)]
pub struct Text {
    /// The fragments, in reading order.
    pub fragments: Vec<TextFragment>,
}

impl View for Text {
    type V = Seq<FragView>;

    open spec fn view(&self) -> Seq<FragView> {
        self.fragments@.map_values(|f: TextFragment| f@)
    }
}

impl Text {
    /// An empty run of fragments.
    pub fn new() -> (r: Text)
        ensures
            r@ =~= Seq::<FragView>::empty(),
    {
        Text { fragments: Vec::new() }
    }

    /// An empty run of fragments (no capacity reserved).
    pub fn new_empty() -> (r: Text)
        ensures
            r@ =~= Seq::<FragView>::empty(),
    {
        Text { fragments: Vec::new() }
    }

    /// A run holding one plain fragment with the given text.
    pub fn from_fragment(frag: &str) -> (r: Text)
        ensures
            r@ =~= seq![FragView { text: frag@, attrs: AttrView::plain() }],
    {
        let mut fragments: Vec<TextFragment> = Vec::new();
        fragments.push(TextFragment::new(frag, None));
        Text { fragments }
    }

    /// Appends one fragment at the end.
    pub fn append(&mut self, frag: TextFragment)
        ensures
            final(self)@ =~= old(self)@ + seq![frag@],
    {
        self.fragments.push(frag);
    }

    /// Appends every fragment of `text`, in order.
    pub fn extend(&mut self, mut text: Text)
        ensures
            final(self)@ =~= old(self)@ + text@,
    {
        self.fragments.append(&mut text.fragments);
    }

    /// The plain-text projection: all fragment texts in order, attributes
    /// dropped.
    pub fn collect(&self) -> (r: String)
        ensures
            r@ == concat_texts(self@),
    {
        let mut total = String::new();
        let n = self.fragments.len();
        let mut i: usize = 0;
        while i < n
            invariant
                i <= n,
                n == self.fragments.len(),
                total@ == concat_texts(self@.take(i as int)),
            decreases n - i,
        {
            proof {
                lemma_concat_texts_step(self@, i as int);
            }
            total.append(self.fragments[i].text.as_str());
            i += 1;
        }
        proof {
            assert(self@.take(n as int) =~= self@);
        }
        total
    }

    /// Collapses all fragments into a single one: texts are concatenated,
    /// intermediate attribute splits are discarded, and the concatenation of
    /// the annotations (if any) becomes the single fragment's annotation.
    pub fn combine_fragments(&mut self)
        ensures
            final(self)@ =~= seq![
                FragView {
                    text: concat_texts(old(self)@),
                    attrs: AttrView {
                        annotation: if concat_annotations(old(self)@).len() > 0 {
                            Some(concat_annotations(old(self)@))
                        } else {
                            None
                        },
                        ..AttrView::plain()
                    },
                },
            ],
    {
        let ghost orig = self@;
        let mut text = String::new();
        let mut annotation = String::new();
        let n = self.fragments.len();
        let mut i: usize = 0;
        while i < n
            invariant
                i <= n,
                n == self.fragments.len(),
                self@ == orig,
                text@ == concat_texts(orig.take(i as int)),
                annotation@ == concat_annotations(orig.take(i as int)),
            decreases n - i,
        {
            proof {
                lemma_concat_texts_step(orig, i as int);
                lemma_concat_annotations_step(orig, i as int);
            }
            text.append(self.fragments[i].text.as_str());
            match &self.fragments[i].attributes.annotation {
                Some(a) => annotation.append(a.as_str()),
                None => (),
            }
            i += 1;
        }
        proof {
            assert(orig.take(n as int) =~= orig);
        }
        let mut attributes = TextAttributes::new();
        if !annotation.as_str().is_empty() {
            attributes.annotation = Some(annotation);
        }
        let mut fragments: Vec<TextFragment> = Vec::new();
        fragments.push(TextFragment { text, attributes });
        self.fragments = fragments;
    }

    /// Serializes the fragments in markdown style, in reading order.
    ///
    /// Markup nests in a fixed order around each fragment's text:
    /// preformatted backticks, then single emphasis, double emphasis, link,
    /// heading prefix, and finally the annotation suffix.
    pub fn to_markdown(&self) -> (r: String)
        ensures
            r@ == md_frags(self@),
    {
        let mut total = String::new();
        let n = self.fragments.len();
        let mut i: usize = 0;
        while i < n
            invariant
                i <= n,
                n == self.fragments.len(),
                total@ == md_frags(self@.take(i as int)),
            decreases n - i,
        {
            proof {
                assert(self@.take(i + 1).drop_last() =~= self@.take(i as int));
                assert(self@.take(i + 1).last() == self@[i as int]);
            }
            let piece = md_fragment(&self.fragments[i]);
            total.append(piece.as_str());
            i += 1;
        }
        proof {
            assert(self@.take(n as int) =~= self@);
        }
        total
    }

    /// Strips the decorative filler character from every fragment's text;
    /// attributes are untouched.
    pub fn clean(&mut self)
        ensures
            final(self)@ =~= clean_frags(old(self)@),
    {
        let ghost orig = self@;
        let n = self.fragments.len();
        let mut cleaned: Vec<TextFragment> = Vec::new();
        let mut i: usize = 0;
        while i < n
            invariant
                i <= n,
                n == self.fragments.len(),
                self@ == orig,
                cleaned@.map_values(|f: TextFragment| f@) =~= clean_frags(orig.take(i as int)),
            decreases n - i,
        {
            let filtered = strip_filler_ex(self.fragments[i].text.as_str());
            let attributes = clone_attrs(&self.fragments[i].attributes);
            cleaned.push(TextFragment { text: filtered, attributes });
            proof {
                assert(clean_frags(orig.take(i + 1)) =~= clean_frags(orig.take(i as int)).push(
                    FragView { text: strip_filler(orig[i as int].text), attrs: orig[i as int].attrs },
                ));
            }
            i += 1;
        }
        proof {
            assert(orig.take(n as int) =~= orig);
        }
        self.fragments = cleaned;
    }
}

/// A run of `n` hash marks, the markdown heading prefix.
pub open spec fn hashes(n: nat) -> Seq<char> {
    Seq::new(n, |i: int| '#')
}

/// The markdown form of one fragment.
pub open spec fn md_frag(f: FragView) -> Seq<char> {
    let s0 = f.text;
    let s1 = if f.attrs.preformatted {
        "`"@ + s0 + "`"@
    } else {
        s0
    };
    let s2 = if f.attrs.italic {
        "*"@ + s1 + "*"@
    } else {
        s1
    };
    let s3 = if f.attrs.bold {
        "**"@ + s2 + "**"@
    } else {
        s2
    };
    let s4 = match f.attrs.link {
        Some(l) => "["@ + s3 + "]("@ + l + ")"@,
        None => s3,
    };
    let s5 = match f.attrs.heading {
        Some(h) => hashes(h as nat) + " "@ + s4,
        None => s4,
    };
    match f.attrs.annotation {
        Some(a) => s5 + "("@ + a + ")"@,
        None => s5,
    }
}

/// The markdown forms of all fragments, concatenated in order.
pub open spec fn md_frags(frags: Seq<FragView>) -> Seq<char>
    decreases frags.len(),
{
    if frags.len() == 0 {
        Seq::empty()
    } else {
        md_frags(frags.drop_last()) + md_frag(frags.last())
    }
}

/// The markdown form of one fragment, executable form.
pub fn md_fragment(f: &TextFragment) -> (r: String)
    ensures
        r@ == md_frag(f@),
{
    let mut formatted = f.text.clone();
    if f.attributes.preformatted {
        let mut s = String::from_str("`");
        s.append(formatted.as_str());
        s.append("`");
        formatted = s;
    }
    if f.attributes.italic {
        let mut s = String::from_str("*");
        s.append(formatted.as_str());
        s.append("*");
        formatted = s;
    }
    if f.attributes.bold {
        let mut s = String::from_str("**");
        s.append(formatted.as_str());
        s.append("**");
        formatted = s;
    }
    if let Some(link) = &f.attributes.link {
        let mut s = String::from_str("[");
        s.append(formatted.as_str());
        s.append("](");
        s.append(link.as_str());
        s.append(")");
        formatted = s;
    }
    if let Some(heading) = &f.attributes.heading {
        let h = *heading;
        let mut s = String::new();
        let mut k: u8 = 0;
        while k < h
            invariant
                k <= h,
                s@ =~= hashes(k as nat),
            decreases h - k,
        {
            s.append("#");
            proof {
                reveal_strlit("#");
                assert(s@ =~= hashes((k + 1) as nat));
            }
            k += 1;
        }
        s.append(" ");
        s.append(formatted.as_str());
        formatted = s;
    }
    if let Some(annotation) = &f.attributes.annotation {
        let mut s = formatted;
        s.append("(");
        s.append(annotation.as_str());
        s.append(")");
        formatted = s;
    }
    proof {
        assert(formatted@ =~= md_frag(f@));
    }
    formatted
}

/// The filler-stripped copy of a string.
pub fn strip_filler_ex(s: &str) -> (r: String)
    ensures
        r@ == strip_filler(s@),
{
    let n = s.unicode_len();
    let mut out = String::new();
    let mut start: usize = 0;
    let mut i: usize = 0;
    while i < n
        invariant
            start <= i <= n,
            n == s@.len(),
            strip_filler(s@.take(i as int)) =~= out@ + s@.subrange(start as int, i as int),
        decreases n - i,
    {
        proof {
            reveal_with_fuel(Seq::filter, 2);
            assert(s@.take(i + 1).drop_last() =~= s@.take(i as int));
            assert(s@.take(i + 1).last() == s@[i as int]);
        }
        if s.get_char(i) == '\u{3000}' {
            let run = s.substring_char(start, i);
            out.append(run);
            start = i + 1;
            proof {
                assert(s@.subrange(i + 1, i + 1) =~= Seq::<char>::empty());
                assert(strip_filler(s@.take(i + 1)) =~= out@ + s@.subrange(i + 1, i + 1));
            }
        } else {
            proof {
                assert(s@.subrange(start as int, i + 1) =~= s@.subrange(
                    start as int,
                    i as int,
                ).push(s@[i as int]));
                assert(strip_filler(s@.take(i + 1)) =~= out@ + s@.subrange(start as int, i + 1));
            }
        }
        i += 1;
    }
    let tail = s.substring_char(start, n);
    out.append(tail);
    proof {
        assert(s@.take(n as int) =~= s@);
    }
    out
}

/// A sequence every element of which satisfies the predicate is unchanged by
/// filtering with it.
pub proof fn lemma_filter_all_kept<A>(s: Seq<A>, pred: spec_fn(A) -> bool)
    requires
        forall|i: int| 0 <= i < s.len() ==> pred(s[i]),
    ensures
        s.filter(pred) =~= s,
    decreases s.len(),
{
    reveal_with_fuel(Seq::filter, 2);
    if s.len() > 0 {
        lemma_filter_all_kept(s.drop_last(), pred);
    }
}

} // verus!

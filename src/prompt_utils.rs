//! The document assembler: concatenates labelled fragments into one text and
//! records, for each fragment, the byte range that its content occupies.
//!
//! Offsets count UTF-8 bytes from the start of the assembled text. The
//! separator placed between two fragments belongs to no section.

use vstd::prelude::*;
use vstd::string::*;
use vstd::utf8::*;

verus! {

/// Number of UTF-8 bytes that encode a character sequence.
pub open spec fn byte_len(s: Seq<char>) -> nat {
    encode_utf8(s).len()
}

/// The contents of a list of fragments, as character sequences.
pub open spec fn contents_of(parts: Seq<PromptPart>) -> Seq<Seq<char>> {
    parts.map_values(|p: PromptPart| p.content@)
}

/// The contents joined in order, with `sep` between each two neighbours.
pub open spec fn joined(c: Seq<Seq<char>>, sep: Seq<char>) -> Seq<char>
    decreases c.len(),
{
    if c.len() == 0 {
        Seq::empty()
    } else if c.len() == 1 {
        c[0]
    } else {
        joined(c.drop_last(), sep) + sep + c.last()
    }
}

/// Byte offset at which the `i`-th content starts in the joined text: the
/// lengths of all earlier contents, each followed by one separator.
pub open spec fn section_start(c: Seq<Seq<char>>, sep: Seq<char>, i: int) -> nat
    decreases i,
{
    if i <= 0 {
        0
    } else {
        section_start(c, sep, i - 1) + byte_len(c[i - 1]) + byte_len(sep)
    }
}

/// Byte offset just past the `i`-th content in the joined text.
pub open spec fn section_end(c: Seq<Seq<char>>, sep: Seq<char>, i: int) -> nat {
    section_start(c, sep, i) + byte_len(c[i])
}

/// One unit of source text: a display label and the literal content.
/// `length` is the content's length in UTF-8 bytes.
#[derive(Debug, Clone, PartialEq, Eq)]
pub struct PromptPart {
    pub length: usize,
    pub label: String,
    pub content: String,
}

impl PromptPart {
    /// `length` is the content's length in bytes.
    pub open spec fn wf(&self) -> bool {
        self.length as nat == byte_len(self.content@)
    }

    /// A fragment with the given label and content, its length filled in.
    pub fn new(label: String, content: String) -> (r: PromptPart)
        ensures
            r.label@ == label@,
            r.content@ == content@,
            r.wf(),
    {
        let length = content.as_str().as_bytes().len();
        PromptPart { length, label, content }
    }
}

/// A labelled range `[start, end)` of byte offsets into an assembled text.
#[derive(Debug, Clone, PartialEq, Eq)]
pub struct Section {
    pub label: String,
    pub start: usize,
    pub end: usize,
}

/// Encoding distributes over concatenation.
pub proof fn lemma_encode_concat(a: Seq<char>, b: Seq<char>)
    ensures
        encode_utf8(a + b) == encode_utf8(a) + encode_utf8(b),
    decreases a.len(),
{
    if a.len() == 0 {
        assert(a + b =~= b);
        assert(encode_utf8(a) + encode_utf8(b) =~= encode_utf8(b));
    } else {
        assert((a + b).drop_first() =~= a.drop_first() + b);
        lemma_encode_concat(a.drop_first(), b);
        assert((a + b)[0] == a[0]);
        assert(encode_utf8(a + b) =~= encode_utf8(a) + encode_utf8(b));
    }
}

/// A section start depends only on the contents before it.
proof fn lemma_start_prefix(c: Seq<Seq<char>>, sep: Seq<char>, k: int, i: int)
    requires
        0 <= i <= k <= c.len(),
    ensures
        section_start(c.take(k), sep, i) == section_start(c, sep, i),
    decreases i,
{
    if i > 0 {
        lemma_start_prefix(c, sep, k, i - 1);
    }
}

/// Section starts never decrease.
proof fn lemma_start_monotone(c: Seq<Seq<char>>, sep: Seq<char>, i: int, j: int)
    requires
        0 <= i <= j,
    ensures
        section_start(c, sep, i) <= section_start(c, sep, j),
    decreases j - i,
{
    if i < j {
        lemma_start_monotone(c, sep, i, j - 1);
    }
}

/// The joined text, followed by one more separator, ends where a further
/// content would start.
proof fn lemma_joined_len(c: Seq<Seq<char>>, sep: Seq<char>)
    requires
        c.len() >= 1,
    ensures
        byte_len(joined(c, sep)) + byte_len(sep) == section_start(c, sep, c.len() as int),
    decreases c.len(),
{
    let n = c.len() as int;
    if n == 1 {
        assert(section_start(c, sep, 0) == 0);
        assert(section_start(c, sep, 1) == byte_len(c[0]) + byte_len(sep));
    } else {
        let d = c.drop_last();
        lemma_joined_len(d, sep);
        assert(d =~= c.take(n - 1));
        lemma_start_prefix(c, sep, n - 1, n - 1);
        lemma_encode_concat(joined(d, sep), sep);
        lemma_encode_concat(joined(d, sep) + sep, c.last());
        assert(joined(c, sep) == joined(d, sep) + sep + c.last());
        assert(section_start(c, sep, n) == section_start(c, sep, n - 1) + byte_len(c[n - 1])
            + byte_len(sep));
    }
}

/// Every section lies within the joined text.
proof fn lemma_end_bound(c: Seq<Seq<char>>, sep: Seq<char>, i: int)
    requires
        0 <= i < c.len(),
    ensures
        section_end(c, sep, i) <= byte_len(joined(c, sep)),
        i + 1 < c.len() ==> section_end(c, sep, i) + byte_len(sep) <= byte_len(joined(c, sep)),
{
    lemma_joined_len(c, sep);
    let n = c.len() as int;
    assert(section_start(c, sep, n) == section_end(c, sep, n - 1) + byte_len(sep));
    if i + 1 < n {
        lemma_start_monotone(c, sep, i + 1, n - 1);
        assert(section_start(c, sep, i + 1) == section_end(c, sep, i) + byte_len(sep));
        assert(section_start(c, sep, n - 1) <= section_end(c, sep, n - 1));
    }
}

/// Slicing the joined text's bytes at a section's range gives back exactly the
/// bytes of that section's content.
pub proof fn lemma_slice_joined(c: Seq<Seq<char>>, sep: Seq<char>, i: int)
    requires
        0 <= i < c.len(),
    ensures
        encode_utf8(joined(c, sep)).subrange(
            section_start(c, sep, i) as int,
            section_end(c, sep, i) as int,
        ) == encode_utf8(c[i]),
    decreases c.len(),
{
    if c.len() == 1 {
        assert(encode_utf8(c[0]).subrange(0, byte_len(c[0]) as int) =~= encode_utf8(c[0]));
    } else {
        let d = c.drop_last();
        let n = c.len() - 1;
        assert(d =~= c.take(n));
        lemma_encode_concat(joined(d, sep), sep);
        lemma_encode_concat(joined(d, sep) + sep, c.last());
        let ej = encode_utf8(joined(d, sep));
        let es = encode_utf8(sep);
        let el = encode_utf8(c.last());
        assert(encode_utf8(joined(c, sep)) == ej + es + el);
        lemma_start_prefix(c, sep, n, i);
        if i == n {
            lemma_joined_len(d, sep);
            lemma_start_prefix(c, sep, n, n);
            assert((ej + es + el).subrange(
                section_start(c, sep, i) as int,
                section_end(c, sep, i) as int,
            ) =~= el);
        } else {
            lemma_slice_joined(d, sep, i);
            lemma_end_bound(d, sep, i);
            assert(d[i] == c[i]);
            assert((ej + es + el).subrange(
                section_start(c, sep, i) as int,
                section_end(c, sep, i) as int,
            ) =~= ej.subrange(section_start(d, sep, i) as int, section_end(d, sep, i) as int));
        }
    }
}

/// The joined text of the first `i` contents ends one separator before the
/// `i`-th section starts.
proof fn lemma_prefix_len(c: Seq<Seq<char>>, sep: Seq<char>, i: int)
    requires
        0 < i <= c.len(),
    ensures
        byte_len(joined(c.take(i), sep)) + byte_len(sep) == section_start(c, sep, i),
{
    lemma_joined_len(c.take(i), sep);
    lemma_start_prefix(c, sep, i, i);
}

/// `text` and `sections` are the assembly of `parts` with `separator`: the
/// contents joined by the separator, and one section per fragment with its
/// label and the byte range of its content.
pub open spec fn is_assembly(
    parts: Seq<PromptPart>,
    separator: Seq<char>,
    text: String,
    sections: Seq<Section>,
) -> bool {
    &&& text@ == joined(contents_of(parts), separator)
    &&& sections.len() == parts.len()
    &&& forall|i: int|
        0 <= i < parts.len() ==> {
            &&& (#[trigger] sections[i]).label@ == parts[i].label@
            &&& sections[i].start == section_start(contents_of(parts), separator, i)
            &&& sections[i].end == section_end(contents_of(parts), separator, i)
        }
}

/// Separator placed between neighbouring fragments by
/// `build_slash_command_output`.
pub const SEPARATOR: &'static str = "\n\n";

/// Joins the fragments' contents in order with `separator` between each two
/// neighbours, and records one section per fragment: its label, and the
/// byte range of its content in the text. No separator byte lies inside a
/// section. No fragments give an empty text and no sections.
pub fn assemble(parts: &Vec<PromptPart>, separator: &str) -> (r: (String, Vec<Section>))
    requires
        byte_len(joined(contents_of(parts@), separator@)) <= usize::MAX,
    ensures
        is_assembly(parts@, separator@, r.0, r.1@),
        forall|i: int|
            0 <= i < parts.len() ==> #[trigger] r.1[i].end - r.1[i].start == byte_len(
                parts[i].content@,
            ),
        forall|i: int|
            0 <= i < parts.len() - 1 ==> #[trigger] r.1[i + 1].start == r.1[i].end + byte_len(
                separator@,
            ),
{
    let ghost c = contents_of(parts@);
    let ghost sep = separator@;
    let sep_len = separator.as_bytes().len();
    let mut text = String::new();
    let mut sections: Vec<Section> = Vec::new();
    let mut pos: usize = 0;
    let mut i: usize = 0;
    proof {
        assert(c.take(0) =~= Seq::<Seq<char>>::empty());
    }
    while i < parts.len()
        invariant
            0 <= i <= parts.len(),
            c == contents_of(parts@),
            sep == separator@,
            byte_len(joined(c, sep)) <= usize::MAX,
            sep_len == byte_len(sep),
            text@ == joined(c.take(i as int), sep),
            pos == byte_len(text@),
            sections.len() == i,
            forall|j: int|
                0 <= j < i ==> {
                    &&& (#[trigger] sections[j]).label@ == parts[j].label@
                    &&& sections[j].start == section_start(c, sep, j)
                    &&& sections[j].end == section_end(c, sep, j)
                },
        decreases parts.len() - i,
    {
        let part = &parts[i];
        proof {
            lemma_end_bound(c, sep, i as int);
            assert(c[i as int] == part.content@);
            if i > 0 {
                lemma_prefix_len(c, sep, i as int);
                lemma_end_bound(c, sep, i - 1);
                assert(c.len() >= 2);
            }
        }
        let ghost before = text@;
        if i > 0 {
            text.append(separator);
            proof {
                lemma_encode_concat(before, sep);
            }
            pos = pos + sep_len;
        }
        let ghost mid = text@;
        let start = pos;
        let len = part.content.as_str().as_bytes().len();
        text.append(part.content.as_str());
        proof {
            lemma_encode_concat(mid, c[i as int]);
        }
        pos = pos + len;
        sections.push(Section { label: part.label.clone(), start, end: pos });
        proof {
            if i > 0 {
                assert(c.take(i + 1).drop_last() =~= c.take(i as int));
            } else {
                assert(c.take(1).len() == 1);
                assert(c.take(1)[0] == c[0]);
            }
            assert(sections[i as int].label@ == parts[i as int].label@);
        }
        i = i + 1;
    }
    proof {
        assert(c.take(parts.len() as int) =~= c);
        assert forall|i: int| 0 <= i < parts.len() implies #[trigger] sections[i].end
            - sections[i].start == byte_len(parts[i].content@) by {
            assert(sections[i].label@ == parts[i].label@);
            assert(c[i] == parts[i].content@);
        }
        assert forall|i: int| 0 <= i < parts.len() - 1 implies #[trigger] sections[i + 1].start
            == sections[i].end + byte_len(sep) by {
            assert(sections[i].label@ == parts[i].label@);
            assert(sections[i + 1].label@ == parts[i + 1].label@);
            assert(section_start(c, sep, i + 1) == section_end(c, sep, i) + byte_len(sep));
        }
    }
    (text, sections)
}

/// The length in bytes of the text that `assemble` would build, when it
/// fits in `usize`.
pub fn assembled_len(parts: &Vec<PromptPart>, separator: &str) -> (r: Option<usize>)
    ensures
        match r {
            Some(n) => n == byte_len(joined(contents_of(parts@), separator@)),
            None => byte_len(joined(contents_of(parts@), separator@)) > usize::MAX,
        },
{
    let ghost c = contents_of(parts@);
    let ghost sep = separator@;
    if parts.len() == 0 {
        assert(encode_utf8(joined(c, sep)) =~= Seq::<u8>::empty());
        return Some(0);
    }
    let sep_len = separator.as_bytes().len();
    let mut total: usize = parts[0].content.as_str().as_bytes().len();
    assert(c[0] == parts[0].content@);
    let mut i: usize = 1;
    while i < parts.len()
        invariant
            1 <= i <= parts.len(),
            c == contents_of(parts@),
            sep == separator@,
            sep_len == byte_len(sep),
            total == section_end(c, sep, i - 1),
        decreases parts.len() - i,
    {
        let len = parts[i].content.as_str().as_bytes().len();
        assert(c[i as int] == parts[i as int].content@);
        assert(section_end(c, sep, i as int) == section_end(c, sep, i - 1) + byte_len(sep)
            + byte_len(c[i as int]));
        match total.checked_add(sep_len) {
            Some(t) => match t.checked_add(len) {
                Some(u) => {
                    total = u;
                },
                None => {
                    proof {
                        lemma_end_bound(c, sep, i as int);
                    }
                    return None;
                },
            },
            None => {
                proof {
                    lemma_end_bound(c, sep, i as int);
                }
                return None;
            },
        }
        i = i + 1;
    }
    proof {
        lemma_joined_len(c, sep);
    }
    Some(total)
}

/// Assembles the fragments with a blank line between each two neighbours.
pub fn build_slash_command_output(parts: Vec<PromptPart>) -> (r: (String, Vec<Section>))
    requires
        byte_len(joined(contents_of(parts@), SEPARATOR@)) <= usize::MAX,
    ensures
        is_assembly(parts@, SEPARATOR@, r.0, r.1@),
{
    assemble(&parts, SEPARATOR)
}

/// Slicing the bytes of the assembled text at any section's range gives back
/// exactly the bytes of that fragment's content, whatever the separator.
pub proof fn lemma_assemble_round_trip(parts: Seq<PromptPart>, separator: Seq<char>, i: int)
    requires
        0 <= i < parts.len(),
    ensures
        encode_utf8(joined(contents_of(parts), separator)).subrange(
            section_start(contents_of(parts), separator, i) as int,
            section_end(contents_of(parts), separator, i) as int,
        ) == encode_utf8(parts[i].content@),
{
    lemma_slice_joined(contents_of(parts), separator, i);
}

/// Assembling the same fragments (equal labels and contents, in the same
/// order) with the same separator twice gives the same text and the same
/// sections.
pub proof fn lemma_assemble_deterministic(
    parts1: Seq<PromptPart>,
    parts2: Seq<PromptPart>,
    separator: Seq<char>,
    text1: String,
    sections1: Seq<Section>,
    text2: String,
    sections2: Seq<Section>,
)
    requires
        parts1.len() == parts2.len(),
        forall|i: int|
            0 <= i < parts1.len() ==> (#[trigger] parts1[i]).label@ == parts2[i].label@
                && parts1[i].content@ == parts2[i].content@,
        is_assembly(parts1, separator, text1, sections1),
        is_assembly(parts2, separator, text2, sections2),
    ensures
        text1@ == text2@,
        sections1.len() == sections2.len(),
        forall|i: int|
            0 <= i < sections1.len() ==> (#[trigger] sections1[i]).label@ == sections2[i].label@
                && sections1[i].start == sections2[i].start && sections1[i].end
                == sections2[i].end,
{
    assert(contents_of(parts1) =~= contents_of(parts2)) by {
        assert forall|i: int| 0 <= i < parts1.len() implies contents_of(parts1)[i] == contents_of(
            parts2,
        )[i] by {
            assert(parts1[i].content@ == parts2[i].content@);
        }
    }
    assert forall|i: int| 0 <= i < sections1.len() implies (#[trigger] sections1[i]).label@
        == sections2[i].label@ && sections1[i].start == sections2[i].start && sections1[i].end
        == sections2[i].end by {
        assert(sections2[i].label@ == parts2[i].label@);
        assert(parts1[i].label@ == parts2[i].label@);
    }
}

} // verus!

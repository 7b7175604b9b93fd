use vstd::prelude::*;
use vstd::seq_lib::*;
use vstd::string::StrSliceExecFns;
use vstd::string::StringSliceAdditionalSpecFns;
use vstd::string::StringExecFns;
use vstd::utf8::{decode_utf8, encode_utf8, encode_utf8_decode_utf8, valid_utf8};
use crate::blocker::CosmeticBlockerResult;
use crate::engine::pairs_view;

verus! {

// ---------------------------------------------------------------------------
// Byte classification and class-token extraction.
// ---------------------------------------------------------------------------

/// ASCII whitespace, as the class attribute is split on it.
pub open spec fn is_ws(b: u8) -> bool {
    b == 32 || b == 9 || b == 10 || b == 13 || b == 12
}

/// Whether the byte is an ASCII letter.
pub open spec fn is_letter(b: u8) -> bool {
    (65 <= b <= 90) || (97 <= b <= 122)
}

/// The byte with an upper-case ASCII letter folded to lower case.
pub open spec fn lower(b: u8) -> u8 {
    if 65 <= b <= 90 {
        (b + 32) as u8
    } else {
        b
    }
}

/// Length of the leading run of non-whitespace bytes.
pub open spec fn run_len(s: Seq<u8>) -> int
    decreases s.len(),
{
    if s.len() == 0 || is_ws(s[0]) {
        0
    } else {
        1 + run_len(s.drop_first())
    }
}

/// The whitespace-separated tokens of a byte sequence, in order, with empty
/// tokens impossible and runs of whitespace collapsed.
pub open spec fn split_tokens(s: Seq<u8>) -> Seq<Seq<u8>>
    decreases s.len(),
    via split_tokens_decreases
{
    if s.len() == 0 {
        Seq::empty()
    } else if is_ws(s[0]) {
        split_tokens(s.drop_first())
    } else {
        seq![s.take(run_len(s))] + split_tokens(s.skip(run_len(s)))
    }
}

#[via_fn]
proof fn split_tokens_decreases(s: Seq<u8>) {
    lemma_run_len(s);
}

/// The leading run is non-whitespace and ends at whitespace or the end.
pub proof fn lemma_run_len(s: Seq<u8>)
    ensures
        0 <= run_len(s) <= s.len(),
        forall|k: int| 0 <= k < run_len(s) ==> !is_ws(s[k]),
        run_len(s) < s.len() ==> is_ws(s[run_len(s)]),
    decreases s.len(),
{
    if s.len() == 0 || is_ws(s[0]) {
    } else {
        lemma_run_len(s.drop_first());
        assert forall|k: int| 0 <= k < run_len(s) implies !is_ws(s[k]) by {
            if k > 0 {
                assert(s.drop_first()[k - 1] == s[k]);
            }
        }
        if run_len(s) < s.len() {
            assert(s.drop_first()[run_len(s) - 1] == s[run_len(s)]);
        }
    }
}

/// Any cut with the same shape as the leading run is the leading run.
pub proof fn lemma_run_len_is(s: Seq<u8>, n: int)
    requires
        0 <= n <= s.len(),
        forall|k: int| 0 <= k < n ==> !is_ws(s[k]),
        n < s.len() ==> is_ws(s[n]),
    ensures
        run_len(s) == n,
    decreases s.len(),
{
    if s.len() == 0 || is_ws(s[0]) {
    } else {
        assert(n > 0);
        lemma_run_len_is(s.drop_first(), n - 1);
    }
}

/// Appends the element unless it is already present.
pub open spec fn insert_unique(s: Seq<Seq<u8>>, x: Seq<u8>) -> Seq<Seq<u8>> {
    if s.contains(x) {
        s
    } else {
        s.push(x)
    }
}

/// Inserts each element in order, dropping duplicates.
pub open spec fn insert_all(s: Seq<Seq<u8>>, xs: Seq<Seq<u8>>) -> Seq<Seq<u8>>
    decreases xs.len(),
{
    if xs.len() == 0 {
        s
    } else {
        insert_all(insert_unique(s, xs[0]), xs.drop_first())
    }
}

/// Byte-for-byte equality of two buffers.
fn bytes_eq(a: &Vec<u8>, b: &Vec<u8>) -> (r: bool)
    ensures
        r == (a@ == b@),
{
    if a.len() != b.len() {
        assert(a@ != b@);
        return false;
    }
    let n = a.len();
    for i in 0..n
        invariant
            n == a.len() == b.len(),
            forall|k: int| 0 <= k < i ==> a@[k] == b@[k],
    {
        if a[i] != b[i] {
            return false;
        }
    }
    assert(a@ =~= b@);
    true
}

/// Whether the buffer already holds this value.
fn contains_bytes(list: &Vec<Vec<u8>>, x: &Vec<u8>) -> (r: bool)
    ensures
        r == list.deep_view().contains(x@),
{
    let n = list.len();
    for i in 0..n
        invariant
            n == list.len(),
            forall|k: int| 0 <= k < i ==> list.deep_view()[k] != x@,
    {
        if bytes_eq(&list[i], x) {
            assert(list.deep_view()[i as int] == x@);
            return true;
        }
        assert(list.deep_view()[i as int] == list@[i as int]@);
    }
    assert(!list.deep_view().contains(x@)) by {
        assert(forall|k: int| 0 <= k < list.deep_view().len() ==> list.deep_view()[k] != x@);
    }
    false
}

/// Appends the value unless it is already present.
fn push_unique(list: &mut Vec<Vec<u8>>, x: Vec<u8>)
    ensures
        final(list).deep_view() == insert_unique(old(list).deep_view(), x@),
{
    if !contains_bytes(list, &x) {
        let ghost before = list.deep_view();
        list.push(x);
        assert(list.deep_view() =~~= before.push(x@));
    } else {
        assert(list.deep_view() =~~= old(list).deep_view());
    }
}

/// Splits a buffer into its whitespace-separated tokens.
fn split_ws_tokens(v: &Vec<u8>) -> (r: Vec<Vec<u8>>)
    ensures
        r.deep_view() == split_tokens(v@),
{
    let n = v.len();
    let mut out: Vec<Vec<u8>> = Vec::new();
    let mut i: usize = 0;
    assert(out.deep_view() + split_tokens(v@.skip(0)) =~= split_tokens(v@)) by {
        assert(v@.skip(0) =~= v@);
    }
    while i < n
        invariant
            n == v.len(),
            i <= n,
            out.deep_view() + split_tokens(v@.skip(i as int)) =~= split_tokens(v@),
        decreases n - i,
    {
        if is_ws_exec(v[i]) {
            proof {
                assert(v@.skip(i as int).drop_first() =~= v@.skip(i + 1));
            }
            i = i + 1;
        } else {
            let start = i;
            let mut tok: Vec<u8> = Vec::new();
            while i < n && !is_ws_exec(v[i])
                invariant
                    n == v.len(),
                    start <= i <= n,
                    tok@ =~= v@.subrange(start as int, i as int),
                    forall|k: int| start <= k < i ==> !is_ws(v@[k]),
                decreases n - i,
            {
                tok.push(v[i]);
                i = i + 1;
                assert(tok@ =~= v@.subrange(start as int, i as int));
            }
            proof {
                let rest = v@.skip(start as int);
                lemma_run_len_is(rest, i - start);
                assert(rest.take(i - start) =~= v@.subrange(start as int, i as int));
                assert(rest.skip(i - start) =~= v@.skip(i as int));
                assert(split_tokens(rest) == seq![tok@] + split_tokens(v@.skip(i as int)));
            }
            let ghost before = out.deep_view();
            out.push(tok);
            proof {
                assert(out.deep_view() =~~= before.push(tok@));
                assert(before.push(tok@) + split_tokens(v@.skip(i as int)) =~= before + (seq![tok@]
                    + split_tokens(v@.skip(i as int))));
            }
        }
    }
    proof {
        assert(v@.skip(n as int) =~= Seq::<u8>::empty());
        assert(out.deep_view() + Seq::<Seq<u8>>::empty() =~= out.deep_view());
    }
    out
}

// ---------------------------------------------------------------------------
// The scanner: a byte-level state machine that forwards the body verbatim,
// collects id and class attribute values, and captures the first closing
// body or html tag so the injection can be placed before it.
// ---------------------------------------------------------------------------

/// Scanner position inside the byte stream.
#[derive(Debug, Clone, Copy, PartialEq, Eq, Structural)]
pub enum ScanState {
    /// Ordinary character data.
    Text,
    /// Just after `<`.
    Lt,
    /// Inside `<!...>` or `<?...>`, until the next `>`.
    MarkupDecl,
    /// Inside a start tag's name.
    TagName,
    /// Inside a start tag, before an attribute name.
    BeforeAttr,
    /// Inside an attribute name.
    AttrName,
    /// After an attribute name, before `=` or the next attribute.
    AfterAttrName,
    /// After `=`, before the value.
    BeforeValue,
    /// Inside a double-quoted value.
    ValueDq,
    /// Inside a single-quoted value.
    ValueSq,
    /// Inside an unquoted value.
    ValueUnq,
    /// Just after `</`.
    ClosePrefix,
    /// Inside an end tag's name.
    CloseName,
    /// Inside a captured end tag's trailing whitespace.
    CloseWs,
    /// Inside an uninteresting end tag, until the next `>`.
    CloseRest,
}

/// Which attribute the scanner is inside.
#[derive(Debug, Clone, Copy, PartialEq, Eq, Structural)]
pub enum AttrKind {
    /// An id attribute.
    Id,
    /// A class attribute.
    Class,
    /// Any other attribute.
    Other,
}

/// The ghost value of a scanner.
pub struct ScannerModel {
    pub state: ScanState,
    pub kind: AttrKind,
    /// The current attribute name, lower-cased.
    pub attr_name: Seq<u8>,
    /// The current attribute value.
    pub attr_val: Seq<u8>,
    /// Bytes of a possible first closing body or html tag, held back.
    pub pending: Seq<u8>,
    /// The current end tag name, lower-cased.
    pub end_name: Seq<u8>,
    /// The id attribute values seen, in first-occurrence order.
    pub ids: Seq<Seq<u8>>,
    /// The class tokens seen, in first-occurrence order.
    pub classes: Seq<Seq<u8>>,
    /// Whether the first closing body or html tag has been captured.
    pub matched: bool,
    /// The captured end tag's bytes.
    pub held: Seq<u8>,
    /// Bytes forwarded before the capture.
    pub out_pre: Seq<u8>,
    /// Bytes forwarded after the capture.
    pub out_post: Seq<u8>,
}

/// The scanner's starting value.
pub open spec fn initial_model() -> ScannerModel {
    ScannerModel {
        state: ScanState::Text,
        kind: AttrKind::Other,
        attr_name: Seq::empty(),
        attr_val: Seq::empty(),
        pending: Seq::empty(),
        end_name: Seq::empty(),
        ids: Seq::empty(),
        classes: Seq::empty(),
        matched: false,
        held: Seq::empty(),
        out_pre: Seq::empty(),
        out_post: Seq::empty(),
    }
}

/// The name "body", lower-cased.
pub open spec fn target_body() -> Seq<u8> {
    seq![98u8, 111u8, 100u8, 121u8]
}

/// The name "html", lower-cased.
pub open spec fn target_html() -> Seq<u8> {
    seq![104u8, 116u8, 109u8, 108u8]
}

/// Whether the name is one of the two injection-point end tags.
pub open spec fn is_target(name: Seq<u8>) -> bool {
    name == target_body() || name == target_html()
}

/// Whether the name could still grow into one of the two end tag names.
pub open spec fn is_target_prefix(name: Seq<u8>) -> bool {
    name.is_prefix_of(target_body()) || name.is_prefix_of(target_html())
}

/// The attribute kind a lower-cased name denotes.
pub open spec fn attr_kind_of(name: Seq<u8>) -> AttrKind {
    if name == seq![105u8, 100u8] {
        AttrKind::Id
    } else if name == seq![99u8, 108u8, 97u8, 115u8, 115u8] {
        AttrKind::Class
    } else {
        AttrKind::Other
    }
}

/// Forwards one byte.
pub open spec fn m_emit(m: ScannerModel, b: u8) -> ScannerModel {
    if m.matched {
        ScannerModel { out_post: m.out_post.push(b), ..m }
    } else {
        ScannerModel { out_pre: m.out_pre.push(b), ..m }
    }
}

/// Forwards the held-back bytes: they were not part of the captured tag.
pub open spec fn m_flush(m: ScannerModel) -> ScannerModel {
    if m.matched {
        ScannerModel { out_post: m.out_post + m.pending, pending: Seq::empty(), ..m }
    } else {
        ScannerModel { out_pre: m.out_pre + m.pending, pending: Seq::empty(), ..m }
    }
}

/// Forwards the held-back bytes, then the current byte, and moves on.
pub open spec fn m_flush_emit(m: ScannerModel, b: u8, st: ScanState) -> ScannerModel {
    ScannerModel { state: st, ..m_emit(m_flush(m), b) }
}

/// Captures the held-back bytes as the injection-point end tag.
pub open spec fn m_capture(m: ScannerModel) -> ScannerModel {
    ScannerModel { state: ScanState::Text, held: m.pending, pending: Seq::empty(), matched: true, ..m }
}

/// Records the finished attribute value under the current attribute kind.
pub open spec fn m_commit(m: ScannerModel) -> ScannerModel {
    match m.kind {
        AttrKind::Id => ScannerModel { ids: insert_unique(m.ids, m.attr_val), ..m },
        AttrKind::Class => ScannerModel {
            classes: insert_all(m.classes, split_tokens(m.attr_val)),
            ..m
        },
        AttrKind::Other => m,
    }
}

/// One step of the scanner.
pub open spec fn scan_byte(m: ScannerModel, b: u8) -> ScannerModel {
    match m.state {
        ScanState::Text => {
            if b == 60 {
                ScannerModel { state: ScanState::Lt, pending: m.pending.push(b), ..m }
            } else {
                m_emit(m, b)
            }
        },
        ScanState::Lt => {
            if b == 47 {
                ScannerModel { state: ScanState::ClosePrefix, pending: m.pending.push(b), ..m }
            } else if is_letter(b) {
                m_flush_emit(m, b, ScanState::TagName)
            } else if b == 33 || b == 63 {
                m_flush_emit(m, b, ScanState::MarkupDecl)
            } else {
                m_flush_emit(m, b, ScanState::Text)
            }
        },
        ScanState::MarkupDecl => {
            if b == 62 {
                ScannerModel { state: ScanState::Text, ..m_emit(m, b) }
            } else {
                m_emit(m, b)
            }
        },
        ScanState::TagName => {
            if is_ws(b) || b == 47 {
                ScannerModel { state: ScanState::BeforeAttr, ..m_emit(m, b) }
            } else if b == 62 {
                ScannerModel { state: ScanState::Text, ..m_emit(m, b) }
            } else {
                m_emit(m, b)
            }
        },
        ScanState::BeforeAttr => {
            if b == 62 {
                ScannerModel { state: ScanState::Text, ..m_emit(m, b) }
            } else if is_ws(b) || b == 47 || b == 61 {
                m_emit(m, b)
            } else {
                ScannerModel {
                    state: ScanState::AttrName,
                    attr_name: seq![lower(b)],
                    ..m_emit(m, b)
                }
            }
        },
        ScanState::AttrName => {
            if b == 61 {
                ScannerModel {
                    state: ScanState::BeforeValue,
                    kind: attr_kind_of(m.attr_name),
                    attr_val: Seq::empty(),
                    ..m_emit(m, b)
                }
            } else if is_ws(b) {
                ScannerModel { state: ScanState::AfterAttrName, ..m_emit(m, b) }
            } else if b == 62 {
                ScannerModel { state: ScanState::Text, ..m_emit(m, b) }
            } else if b == 47 {
                ScannerModel { state: ScanState::BeforeAttr, ..m_emit(m, b) }
            } else {
                ScannerModel { attr_name: m.attr_name.push(lower(b)), ..m_emit(m, b) }
            }
        },
        ScanState::AfterAttrName => {
            if b == 61 {
                ScannerModel {
                    state: ScanState::BeforeValue,
                    kind: attr_kind_of(m.attr_name),
                    attr_val: Seq::empty(),
                    ..m_emit(m, b)
                }
            } else if b == 62 {
                ScannerModel { state: ScanState::Text, ..m_emit(m, b) }
            } else if is_ws(b) {
                m_emit(m, b)
            } else if b == 47 {
                ScannerModel { state: ScanState::BeforeAttr, ..m_emit(m, b) }
            } else {
                ScannerModel {
                    state: ScanState::AttrName,
                    attr_name: seq![lower(b)],
                    ..m_emit(m, b)
                }
            }
        },
        ScanState::BeforeValue => {
            if is_ws(b) {
                m_emit(m, b)
            } else if b == 34 {
                ScannerModel { state: ScanState::ValueDq, ..m_emit(m, b) }
            } else if b == 39 {
                ScannerModel { state: ScanState::ValueSq, ..m_emit(m, b) }
            } else if b == 62 {
                ScannerModel { state: ScanState::Text, ..m_commit(m_emit(m, b)) }
            } else {
                ScannerModel { state: ScanState::ValueUnq, attr_val: seq![b], ..m_emit(m, b) }
            }
        },
        ScanState::ValueDq => {
            if b == 34 {
                ScannerModel { state: ScanState::BeforeAttr, ..m_commit(m_emit(m, b)) }
            } else {
                ScannerModel { attr_val: m.attr_val.push(b), ..m_emit(m, b) }
            }
        },
        ScanState::ValueSq => {
            if b == 39 {
                ScannerModel { state: ScanState::BeforeAttr, ..m_commit(m_emit(m, b)) }
            } else {
                ScannerModel { attr_val: m.attr_val.push(b), ..m_emit(m, b) }
            }
        },
        ScanState::ValueUnq => {
            if is_ws(b) {
                ScannerModel { state: ScanState::BeforeAttr, ..m_commit(m_emit(m, b)) }
            } else if b == 62 {
                ScannerModel { state: ScanState::Text, ..m_commit(m_emit(m, b)) }
            } else {
                ScannerModel { attr_val: m.attr_val.push(b), ..m_emit(m, b) }
            }
        },
        ScanState::ClosePrefix => {
            if is_letter(b) {
                ScannerModel {
                    state: ScanState::CloseName,
                    end_name: seq![lower(b)],
                    pending: m.pending.push(b),
                    ..m
                }
            } else {
                m_flush_emit(m, b, ScanState::Text)
            }
        },
        ScanState::CloseName => {
            if is_letter(b) {
                let grown = ScannerModel {
                    end_name: m.end_name.push(lower(b)),
                    pending: m.pending.push(b),
                    ..m
                };
                if is_target_prefix(grown.end_name) {
                    grown
                } else {
                    ScannerModel { state: ScanState::CloseRest, ..m_flush(grown) }
                }
            } else if b == 62 {
                let grown = ScannerModel { pending: m.pending.push(b), ..m };
                if !m.matched && is_target(m.end_name) {
                    m_capture(grown)
                } else {
                    ScannerModel { state: ScanState::Text, ..m_flush(grown) }
                }
            } else if is_ws(b) {
                let grown = ScannerModel { pending: m.pending.push(b), ..m };
                if !m.matched && is_target(m.end_name) {
                    ScannerModel { state: ScanState::CloseWs, ..grown }
                } else {
                    ScannerModel { state: ScanState::CloseRest, ..m_flush(grown) }
                }
            } else {
                let grown = ScannerModel { pending: m.pending.push(b), ..m };
                ScannerModel { state: ScanState::CloseRest, ..m_flush(grown) }
            }
        },
        ScanState::CloseWs => {
            if is_ws(b) {
                ScannerModel { pending: m.pending.push(b), ..m }
            } else if b == 62 {
                m_capture(ScannerModel { pending: m.pending.push(b), ..m })
            } else {
                let grown = ScannerModel { pending: m.pending.push(b), ..m };
                ScannerModel { state: ScanState::CloseRest, ..m_flush(grown) }
            }
        },
        ScanState::CloseRest => {
            if b == 62 {
                ScannerModel { state: ScanState::Text, ..m_emit(m, b) }
            } else {
                m_emit(m, b)
            }
        },
    }
}

/// The scanner folded over a byte sequence.
pub open spec fn scan_bytes(m: ScannerModel, bs: Seq<u8>) -> ScannerModel
    decreases bs.len(),
{
    if bs.len() == 0 {
        m
    } else {
        scan_bytes(scan_byte(m, bs[0]), bs.drop_first())
    }
}

/// Whether the scanner may hold back bytes in this state.
pub open spec fn holds_pending(st: ScanState) -> bool {
    st == ScanState::Lt || st == ScanState::ClosePrefix || st == ScanState::CloseName || st
        == ScanState::CloseWs
}

/// The scanner's internal invariant: before the capture nothing was held or
/// emitted after it, bytes are held back only around a possible end tag, and
/// while the scanner sits in `CloseWs` it has seen a full target name.
pub open spec fn inv(m: ScannerModel) -> bool {
    &&& !m.matched ==> m.held == Seq::<u8>::empty() && m.out_post == Seq::<u8>::empty()
    &&& !holds_pending(m.state) ==> m.pending == Seq::<u8>::empty()
    &&& m.state == ScanState::CloseWs ==> !m.matched && is_target(m.end_name)
}

/// Every byte the scanner has consumed, in order: forwarded before the
/// capture, then the captured tag, then forwarded after it, then held back.
pub open spec fn consumed(m: ScannerModel) -> Seq<u8> {
    m.out_pre + m.held + m.out_post + m.pending
}

/// One scanner step consumes exactly its input byte, keeps the invariant,
/// and only ever extends what it has forwarded or captured.
pub proof fn lemma_scan_byte(m: ScannerModel, b: u8)
    requires
        inv(m),
    ensures
        inv(scan_byte(m, b)),
        consumed(scan_byte(m, b)) == consumed(m).push(b),
        m.out_pre.is_prefix_of(scan_byte(m, b).out_pre),
        m.out_post.is_prefix_of(scan_byte(m, b).out_post),
        m.matched ==> scan_byte(m, b).matched,
        m.matched ==> scan_byte(m, b).held == m.held && scan_byte(m, b).out_pre == m.out_pre,
{
    let m2 = scan_byte(m, b);
    assert(consumed(m2) =~= consumed(m).push(b));
    assert(m.out_pre.is_prefix_of(m2.out_pre)) by {
        assert(m2.out_pre.take(m.out_pre.len() as int) =~= m.out_pre);
    }
    assert(m.out_post.is_prefix_of(m2.out_post)) by {
        assert(m2.out_post.take(m.out_post.len() as int) =~= m.out_post);
    }
}

/// `lemma_scan_byte`, folded over a whole byte sequence.
pub proof fn lemma_scan_bytes(m: ScannerModel, bs: Seq<u8>)
    requires
        inv(m),
    ensures
        inv(scan_bytes(m, bs)),
        consumed(scan_bytes(m, bs)) == consumed(m) + bs,
        m.out_pre.is_prefix_of(scan_bytes(m, bs).out_pre),
        m.out_post.is_prefix_of(scan_bytes(m, bs).out_post),
        m.matched ==> scan_bytes(m, bs).matched,
        m.matched ==> scan_bytes(m, bs).held == m.held && scan_bytes(m, bs).out_pre == m.out_pre,
    decreases bs.len(),
{
    if bs.len() == 0 {
        assert(consumed(m) + bs =~= consumed(m));
    } else {
        lemma_scan_byte(m, bs[0]);
        lemma_scan_bytes(scan_byte(m, bs[0]), bs.drop_first());
        assert(consumed(m).push(bs[0]) + bs.drop_first() =~= consumed(m) + bs);
        let mid = scan_byte(m, bs[0]);
        let fin = scan_bytes(m, bs);
        assert(m.out_pre.is_prefix_of(fin.out_pre)) by {
            assert(fin.out_pre.take(m.out_pre.len() as int) =~= m.out_pre);
        }
        assert(m.out_post.is_prefix_of(fin.out_post)) by {
            assert(fin.out_post.take(m.out_post.len() as int) =~= m.out_post);
        }
    }
}

/// Whitespace test on a byte.
fn is_ws_exec(b: u8) -> (r: bool)
    ensures
        r == is_ws(b),
{
    b == 32 || b == 9 || b == 10 || b == 13 || b == 12
}

/// Letter test on a byte.
fn is_letter_exec(b: u8) -> (r: bool)
    ensures
        r == is_letter(b),
{
    (65 <= b && b <= 90) || (97 <= b && b <= 122)
}

/// The k-th byte of "body".
fn body_byte(k: usize) -> (r: u8)
    requires
        k < 4,
    ensures
        r == target_body()[k as int],
{
    if k == 0 {
        98
    } else if k == 1 {
        111
    } else if k == 2 {
        100
    } else {
        121
    }
}

/// The k-th byte of "html".
fn html_byte(k: usize) -> (r: u8)
    requires
        k < 4,
    ensures
        r == target_html()[k as int],
{
    if k == 0 {
        104
    } else if k == 1 {
        116
    } else if k == 2 {
        109
    } else {
        108
    }
}

/// Whether the name is a prefix of "body".
fn is_prefix_of_body(name: &Vec<u8>) -> (r: bool)
    ensures
        r == name@.is_prefix_of(target_body()),
{
    let n = name.len();
    if n > 4 {
        return false;
    }
    for k in 0..n
        invariant
            n == name@.len(),
            n <= 4,
            forall|j: int| 0 <= j < k ==> name@[j] == target_body()[j],
    {
        if name[k] != body_byte(k) {
            proof {
                if name@.is_prefix_of(target_body()) {
                    assert(name@[k as int] == target_body().subrange(0, n as int)[k as int]);
                }
            }
            return false;
        }
    }
    proof {
        assert(name@ =~= target_body().subrange(0, n as int));
    }
    true
}

/// Whether the name is a prefix of "html".
fn is_prefix_of_html(name: &Vec<u8>) -> (r: bool)
    ensures
        r == name@.is_prefix_of(target_html()),
{
    let n = name.len();
    if n > 4 {
        return false;
    }
    for k in 0..n
        invariant
            n == name@.len(),
            n <= 4,
            forall|j: int| 0 <= j < k ==> name@[j] == target_html()[j],
    {
        if name[k] != html_byte(k) {
            proof {
                if name@.is_prefix_of(target_html()) {
                    assert(name@[k as int] == target_html().subrange(0, n as int)[k as int]);
                }
            }
            return false;
        }
    }
    proof {
        assert(name@ =~= target_html().subrange(0, n as int));
    }
    true
}

/// Whether the name could still grow into "body" or "html".
fn is_target_prefix_exec(name: &Vec<u8>) -> (r: bool)
    ensures
        r == is_target_prefix(name@),
{
    is_prefix_of_body(name) || is_prefix_of_html(name)
}

/// Whether the name is exactly "body" or "html".
fn is_target_exec(name: &Vec<u8>) -> (r: bool)
    ensures
        r == is_target(name@),
{
    if name.len() != 4 {
        proof {
            if name@ == target_body() {
                assert(name@.len() == 4);
            }
            if name@ == target_html() {
                assert(name@.len() == 4);
            }
        }
        return false;
    }
    let b = is_prefix_of_body(name);
    let h = is_prefix_of_html(name);
    proof {
        if name@.is_prefix_of(target_body()) {
            assert(name@ =~= target_body());
        }
        if name@.is_prefix_of(target_html()) {
            assert(name@ =~= target_html());
        }
        if name@ == target_body() {
            assert(name@.is_prefix_of(target_body())) by {
                assert(name@ =~= target_body().subrange(0, 4));
            }
        }
        if name@ == target_html() {
            assert(name@.is_prefix_of(target_html())) by {
                assert(name@ =~= target_html().subrange(0, 4));
            }
        }
    }
    b || h
}

/// The attribute kind of a lower-cased attribute name.
fn kind_of(name: &Vec<u8>) -> (r: AttrKind)
    ensures
        r == attr_kind_of(name@),
{
    if name.len() == 2 && name[0] == 105 && name[1] == 100 {
        proof {
            assert(name@ =~= seq![105u8, 100u8]);
        }
        AttrKind::Id
    } else if name.len() == 5 && name[0] == 99 && name[1] == 108 && name[2] == 97 && name[3] == 115
        && name[4] == 115 {
        proof {
            assert(name@ =~= seq![99u8, 108u8, 97u8, 115u8, 115u8]);
            assert(name@ != seq![105u8, 100u8]) by {
                if name@ == seq![105u8, 100u8] {
                    assert(name@.len() == 2);
                }
            }
        }
        AttrKind::Class
    } else {
        proof {
            assert(name@ != seq![105u8, 100u8]) by {
                if name@ == seq![105u8, 100u8] {
                    assert(name@.len() == 2);
                    assert(name@[0] == 105u8);
                    assert(name@[1] == 100u8);
                }
            }
            assert(name@ != seq![99u8, 108u8, 97u8, 115u8, 115u8]) by {
                if name@ == seq![99u8, 108u8, 97u8, 115u8, 115u8] {
                    assert(name@.len() == 5);
                    assert(name@[0] == 99u8);
                    assert(name@[1] == 108u8);
                    assert(name@[2] == 97u8);
                    assert(name@[3] == 115u8);
                    assert(name@[4] == 115u8);
                }
            }
        }
        AttrKind::Other
    }
}

/// A copy of a byte buffer.
fn clone_bytes(v: &Vec<u8>) -> (r: Vec<u8>)
    ensures
        r@ == v@,
{
    let n = v.len();
    let mut out: Vec<u8> = Vec::new();
    for i in 0..n
        invariant
            n == v.len(),
            out@ =~= v@.take(i as int),
    {
        out.push(v[i]);
        assert(out@ =~= v@.take(i + 1));
    }
    assert(v@.take(n as int) =~= v@);
    out
}

/// The bytes forwarded between two scanner values.
pub open spec fn emitted_delta(m1: ScannerModel, m2: ScannerModel) -> Seq<u8> {
    m2.out_pre.skip(m1.out_pre.len() as int) + m2.out_post.skip(m1.out_post.len() as int)
}

/// The streaming HTML rewriter: forwards body bytes as they come, collects
/// id and class attribute values, and holds back the first closing body or
/// html tag so that `finish` can place the injection before it.
pub struct Rewriter {
    state: ScanState,
    kind: AttrKind,
    attr_name: Vec<u8>,
    attr_val: Vec<u8>,
    pending: Vec<u8>,
    end_name: Vec<u8>,
    ids: Vec<Vec<u8>>,
    classes: Vec<Vec<u8>>,
    matched: bool,
    held: Vec<u8>,
    url: String,
    g_out_pre: Ghost<Seq<u8>>,
    g_out_post: Ghost<Seq<u8>>,
}

impl Rewriter {
    /// The ghost value of the scanner.
    pub closed spec fn model(&self) -> ScannerModel {
        ScannerModel {
            state: self.state,
            kind: self.kind,
            attr_name: self.attr_name@,
            attr_val: self.attr_val@,
            pending: self.pending@,
            end_name: self.end_name@,
            ids: self.ids.deep_view(),
            classes: self.classes.deep_view(),
            matched: self.matched,
            held: self.held@,
            out_pre: self.g_out_pre@,
            out_post: self.g_out_post@,
        }
    }

    /// The URL of the page this body belongs to.
    pub closed spec fn spec_url(&self) -> Seq<char> {
        self.url@
    }

    /// A fresh rewriter for one response body.
    pub fn new(url: String) -> (r: Self)
        ensures
            r.model() == initial_model(),
            r.spec_url() == url@,
            inv(r.model()),
    {
        let r = Rewriter {
            state: ScanState::Text,
            kind: AttrKind::Other,
            attr_name: Vec::new(),
            attr_val: Vec::new(),
            pending: Vec::new(),
            end_name: Vec::new(),
            ids: Vec::new(),
            classes: Vec::new(),
            matched: false,
            held: Vec::new(),
            url,
            g_out_pre: Ghost(Seq::empty()),
            g_out_post: Ghost(Seq::empty()),
        };
        proof {
            assert(r.ids.deep_view() =~= Seq::<Seq<u8>>::empty());
            assert(r.classes.deep_view() =~= Seq::<Seq<u8>>::empty());
        }
        r
    }

    /// Forwards one byte.
    fn emit(&mut self, out: &mut Vec<u8>, b: u8)
        ensures
            final(self).model() == m_emit(old(self).model(), b),
            final(self).url == old(self).url,
            final(out)@ == old(out)@.push(b),
    {
        out.push(b);
        if self.matched {
            self.g_out_post = Ghost(self.g_out_post@.push(b));
        } else {
            self.g_out_pre = Ghost(self.g_out_pre@.push(b));
        }
    }

    /// Forwards the held-back bytes.
    fn flush(&mut self, out: &mut Vec<u8>)
        ensures
            final(self).model() == m_flush(old(self).model()),
            final(self).url == old(self).url,
            final(out)@ == old(out)@ + old(self).model().pending,
    {
        if self.matched {
            self.g_out_post = Ghost(self.g_out_post@ + self.pending@);
        } else {
            self.g_out_pre = Ghost(self.g_out_pre@ + self.pending@);
        }
        out.append(&mut self.pending);
    }

    /// Captures the held-back bytes as the injection-point end tag.
    fn capture(&mut self)
        ensures
            final(self).model() == m_capture(old(self).model()),
            final(self).url == old(self).url,
    {
        let mut tag: Vec<u8> = Vec::new();
        tag.append(&mut self.pending);
        self.held = tag;
        self.matched = true;
        self.state = ScanState::Text;
    }

    /// Records the finished attribute value.
    fn commit(&mut self)
        ensures
            final(self).model() == m_commit(old(self).model()),
            final(self).url == old(self).url,
    {
        match self.kind {
            AttrKind::Id => {
                let v = clone_bytes(&self.attr_val);
                push_unique(&mut self.ids, v);
            },
            AttrKind::Class => {
                let toks = split_ws_tokens(&self.attr_val);
                let mut cls: Vec<Vec<u8>> = Vec::new();
                core::mem::swap(&mut self.classes, &mut cls);
                let ghost c0 = cls.deep_view();
                let ghost t = toks.deep_view();
                let n = toks.len();
                proof {
                    assert(t.skip(0) =~~= t);
                }
                for i in 0..n
                    invariant
                        n == toks.len(),
                        t == toks.deep_view(),
                        insert_all(c0, t) == insert_all(cls.deep_view(), t.skip(i as int)),
                {
                    let v = clone_bytes(&toks[i]);
                    proof {
                        assert(t.skip(i as int)[0] == t[i as int]);
                        assert(t.skip(i as int).drop_first() =~~= t.skip(i + 1));
                        assert(t[i as int] == toks@[i as int]@);
                    }
                    push_unique(&mut cls, v);
                }
                proof {
                    assert(t.skip(n as int) =~~= Seq::<Seq<u8>>::empty());
                }
                core::mem::swap(&mut self.classes, &mut cls);
            },
            AttrKind::Other => {},
        }
    }

    /// Scans one byte, forwarding whatever may already flow to the client.
    fn step(&mut self, out: &mut Vec<u8>, b: u8)
        ensures
            final(self).model() == scan_byte(old(self).model(), b),
            final(self).url == old(self).url,
            final(out)@ == old(out)@ + emitted_delta(old(self).model(), final(self).model()),
    {
        let ghost m0 = self.model();
        match self.state {
            ScanState::Text => {
                if b == 60 {
                    self.pending.push(b);
                    self.state = ScanState::Lt;
                } else {
                    self.emit(out, b);
                }
            },
            ScanState::Lt => {
                if b == 47 {
                    self.pending.push(b);
                    self.state = ScanState::ClosePrefix;
                } else if is_letter_exec(b) {
                    self.flush(out);
                    self.emit(out, b);
                    self.state = ScanState::TagName;
                } else if b == 33 || b == 63 {
                    self.flush(out);
                    self.emit(out, b);
                    self.state = ScanState::MarkupDecl;
                } else {
                    self.flush(out);
                    self.emit(out, b);
                    self.state = ScanState::Text;
                }
            },
            ScanState::MarkupDecl => {
                self.emit(out, b);
                if b == 62 {
                    self.state = ScanState::Text;
                }
            },
            ScanState::TagName => {
                self.emit(out, b);
                if is_ws_exec(b) || b == 47 {
                    self.state = ScanState::BeforeAttr;
                } else if b == 62 {
                    self.state = ScanState::Text;
                }
            },
            ScanState::BeforeAttr => {
                self.emit(out, b);
                if b == 62 {
                    self.state = ScanState::Text;
                } else if is_ws_exec(b) || b == 47 || b == 61 {
                } else {
                    self.attr_name = Vec::new();
                    self.attr_name.push(lower_exec(b));
                    self.state = ScanState::AttrName;
                    proof {
                        assert(self.attr_name@ =~= seq![lower(b)]);
                    }
                }
            },
            ScanState::AttrName => {
                self.emit(out, b);
                if b == 61 {
                    self.kind = kind_of(&self.attr_name);
                    self.attr_val = Vec::new();
                    self.state = ScanState::BeforeValue;
                    proof {
                        assert(self.attr_val@ =~= Seq::<u8>::empty());
                    }
                } else if is_ws_exec(b) {
                    self.state = ScanState::AfterAttrName;
                } else if b == 62 {
                    self.state = ScanState::Text;
                } else if b == 47 {
                    self.state = ScanState::BeforeAttr;
                } else {
                    self.attr_name.push(lower_exec(b));
                }
            },
            ScanState::AfterAttrName => {
                self.emit(out, b);
                if b == 61 {
                    self.kind = kind_of(&self.attr_name);
                    self.attr_val = Vec::new();
                    self.state = ScanState::BeforeValue;
                    proof {
                        assert(self.attr_val@ =~= Seq::<u8>::empty());
                    }
                } else if b == 62 {
                    self.state = ScanState::Text;
                } else if is_ws_exec(b) {
                } else if b == 47 {
                    self.state = ScanState::BeforeAttr;
                } else {
                    self.attr_name = Vec::new();
                    self.attr_name.push(lower_exec(b));
                    self.state = ScanState::AttrName;
                    proof {
                        assert(self.attr_name@ =~= seq![lower(b)]);
                    }
                }
            },
            ScanState::BeforeValue => {
                self.emit(out, b);
                if is_ws_exec(b) {
                } else if b == 34 {
                    self.state = ScanState::ValueDq;
                } else if b == 39 {
                    self.state = ScanState::ValueSq;
                } else if b == 62 {
                    self.commit();
                    self.state = ScanState::Text;
                } else {
                    self.attr_val = Vec::new();
                    self.attr_val.push(b);
                    self.state = ScanState::ValueUnq;
                    proof {
                        assert(self.attr_val@ =~= seq![b]);
                    }
                }
            },
            ScanState::ValueDq => {
                self.emit(out, b);
                if b == 34 {
                    self.commit();
                    self.state = ScanState::BeforeAttr;
                } else {
                    self.attr_val.push(b);
                }
            },
            ScanState::ValueSq => {
                self.emit(out, b);
                if b == 39 {
                    self.commit();
                    self.state = ScanState::BeforeAttr;
                } else {
                    self.attr_val.push(b);
                }
            },
            ScanState::ValueUnq => {
                self.emit(out, b);
                if is_ws_exec(b) {
                    self.commit();
                    self.state = ScanState::BeforeAttr;
                } else if b == 62 {
                    self.commit();
                    self.state = ScanState::Text;
                } else {
                    self.attr_val.push(b);
                }
            },
            ScanState::ClosePrefix => {
                if is_letter_exec(b) {
                    self.end_name = Vec::new();
                    self.end_name.push(lower_exec(b));
                    self.pending.push(b);
                    self.state = ScanState::CloseName;
                    proof {
                        assert(self.end_name@ =~= seq![lower(b)]);
                    }
                } else {
                    self.flush(out);
                    self.emit(out, b);
                    self.state = ScanState::Text;
                }
            },
            ScanState::CloseName => {
                if is_letter_exec(b) {
                    self.end_name.push(lower_exec(b));
                    self.pending.push(b);
                    if !is_target_prefix_exec(&self.end_name) {
                        self.flush(out);
                        self.state = ScanState::CloseRest;
                    }
                } else if b == 62 {
                    let target = is_target_exec(&self.end_name);
                    self.pending.push(b);
                    if !self.matched && target {
                        self.capture();
                    } else {
                        self.flush(out);
                        self.state = ScanState::Text;
                    }
                } else if is_ws_exec(b) {
                    let target = is_target_exec(&self.end_name);
                    self.pending.push(b);
                    if !self.matched && target {
                        self.state = ScanState::CloseWs;
                    } else {
                        self.flush(out);
                        self.state = ScanState::CloseRest;
                    }
                } else {
                    self.pending.push(b);
                    self.flush(out);
                    self.state = ScanState::CloseRest;
                }
            },
            ScanState::CloseWs => {
                if is_ws_exec(b) {
                    self.pending.push(b);
                } else if b == 62 {
                    self.pending.push(b);
                    self.capture();
                } else {
                    self.pending.push(b);
                    self.flush(out);
                    self.state = ScanState::CloseRest;
                }
            },
            ScanState::CloseRest => {
                self.emit(out, b);
                if b == 62 {
                    self.state = ScanState::Text;
                }
            },
        }
        proof {
            assert(final(out)@ =~= old(out)@ + emitted_delta(m0, self.model()));
        }
    }
}

/// Folding one more byte steps the scanner once.
pub proof fn lemma_scan_bytes_snoc(m: ScannerModel, bs: Seq<u8>, b: u8)
    ensures
        scan_bytes(m, bs.push(b)) == scan_byte(scan_bytes(m, bs), b),
    decreases bs.len(),
{
    if bs.len() == 0 {
        reveal_with_fuel(scan_bytes, 2);
        assert(bs.push(b)[0] == b);
        assert(bs.push(b).drop_first() =~= Seq::<u8>::empty());
    } else {
        assert(bs.push(b)[0] == bs[0]);
        assert(bs.push(b).drop_first() =~= bs.drop_first().push(b));
        lemma_scan_bytes_snoc(scan_byte(m, bs[0]), bs.drop_first(), b);
    }
}

/// Two forwarding deltas compose when the middle value lies between them.
pub proof fn lemma_delta_step(m0: ScannerModel, m1: ScannerModel, b: u8)
    requires
        inv(m0),
        inv(m1),
        m0.out_pre.is_prefix_of(m1.out_pre),
        m0.out_post.is_prefix_of(m1.out_post),
        m0.matched ==> m1.matched,
    ensures
        emitted_delta(m0, scan_byte(m1, b)) == emitted_delta(m0, m1) + emitted_delta(
            m1,
            scan_byte(m1, b),
        ),
{
    lemma_scan_byte(m1, b);
    let m2 = scan_byte(m1, b);
    if m1.matched {
        assert(m2.out_pre == m1.out_pre);
        assert(emitted_delta(m0, m2) =~= emitted_delta(m0, m1) + emitted_delta(m1, m2));
    } else {
        assert(m1.out_post == Seq::<u8>::empty());
        assert(m0.out_post == Seq::<u8>::empty());
        assert(emitted_delta(m0, m2) =~= emitted_delta(m0, m1) + emitted_delta(m1, m2));
    }
}

impl Rewriter {
    /// Feeds one chunk of the upstream body through the scanner, returning
    /// exactly the bytes that may already flow to the client. What flows
    /// here depends on the bytes seen so far alone: no cosmetic data is
    /// consulted before `finish`.
    pub fn write_chunk(&mut self, chunk: &Vec<u8>) -> (out: Vec<u8>)
        requires
            inv(old(self).model()),
        ensures
            final(self).model() == scan_bytes(old(self).model(), chunk@),
            final(self).spec_url() == old(self).spec_url(),
            inv(final(self).model()),
            out@ == emitted_delta(old(self).model(), final(self).model()),
    {
        let ghost m0 = self.model();
        let mut out: Vec<u8> = Vec::new();
        let n = chunk.len();
        proof {
            assert(chunk@.take(0) =~= Seq::<u8>::empty());
            assert(out@ =~= emitted_delta(m0, m0));
        }
        for i in 0..n
            invariant
                n == chunk.len(),
                inv(m0),
                self.model() == scan_bytes(m0, chunk@.take(i as int)),
                self.spec_url() == old(self).spec_url(),
                out@ == emitted_delta(m0, self.model()),
        {
            proof {
                lemma_scan_bytes(m0, chunk@.take(i as int));
                lemma_delta_step(m0, self.model(), chunk@[i as int]);
                lemma_scan_bytes_snoc(m0, chunk@.take(i as int), chunk@[i as int]);
                assert(chunk@.take(i as int).push(chunk@[i as int]) =~= chunk@.take(i + 1));
            }
            let b = chunk[i];
            self.step(&mut out, b);
        }
        proof {
            assert(chunk@.take(n as int) =~= chunk@);
            lemma_scan_bytes(m0, chunk@);
        }
        out
    }
}

/// Case folding of one byte.
fn lower_exec(b: u8) -> (r: u8)
    ensures
        r == lower(b),
{
    if 65 <= b && b <= 90 {
        b + 32
    } else {
        b
    }
}

// ---------------------------------------------------------------------------
// The injected block and the end of the stream.
// ---------------------------------------------------------------------------

/// The hiding rule for one selector.
pub open spec fn hide_rule(sel: Seq<char>) -> Seq<char> {
    sel + " { display: none !important; }"@
}

/// The hiding rules of all selectors, concatenated in order.
pub open spec fn hidden_css(hs: Seq<Seq<char>>) -> Seq<char>
    decreases hs.len(),
{
    if hs.len() == 0 {
        Seq::empty()
    } else {
        hidden_css(hs.drop_last()) + hide_rule(hs.last())
    }
}

/// Declarations joined with semicolons.
pub open spec fn join_semi(ds: Seq<Seq<char>>) -> Seq<char>
    decreases ds.len(),
{
    if ds.len() == 0 {
        Seq::empty()
    } else if ds.len() == 1 {
        ds[0]
    } else {
        join_semi(ds.drop_last()) + ";"@ + ds.last()
    }
}

/// The style rule for one selector and its declarations.
pub open spec fn style_rule(sel: Seq<char>, ds: Seq<Seq<char>>) -> Seq<char> {
    sel + " { "@ + join_semi(ds) + " }"@
}

/// The style rules of all selector pairs, concatenated in order.
pub open spec fn styled_css(ps: Seq<(Seq<char>, Seq<Seq<char>>)>) -> Seq<char>
    decreases ps.len(),
{
    if ps.len() == 0 {
        Seq::empty()
    } else {
        styled_css(ps.drop_last()) + style_rule(ps.last().0, ps.last().1)
    }
}

/// The ghost value of an optional script.
pub open spec fn script_view(o: Option<String>) -> Option<Seq<char>> {
    match o {
        Some(s) => Some(s@),
        None => None,
    }
}

/// The full injected block: the style block between proxy comment markers,
/// then, when a script is present, the script block between its own markers.
pub open spec fn injection_text(
    hidden: Seq<Seq<char>>,
    style: Seq<(Seq<char>, Seq<Seq<char>>)>,
    script: Option<Seq<char>>,
) -> Seq<char> {
    let base = "\n<!-- privaxy proxy -->\n<style>"@ + hidden_css(hidden) + "\n"@ + styled_css(style)
        + "\n</style>\n<!-- privaxy proxy -->"@;
    match script {
        Some(s) => base + "\n<!-- privaxy proxy -->\n<script type=\"application/javascript\">"@ + s
            + "</script>\n<!-- privaxy proxy -->\n"@,
        None => base,
    }
}

/// Whether a cosmetic reply makes the response count as modified: it does
/// exactly when style rules apply or a non-empty script is injected, never
/// for hiding alone.
pub open spec fn spec_modified(c: CosmeticBlockerResult) -> bool {
    c.style_selectors@.len() > 0 || (c.injected_script matches Some(s) && s@.len() > 0)
}

/// Whether this reply makes the response count as modified.
pub fn is_modified(c: &CosmeticBlockerResult) -> (r: bool)
    ensures
        r == spec_modified(*c),
{
    c.style_selectors.len() > 0 || match &c.injected_script {
        Some(s) => !s.as_str().is_empty(),
        None => false,
    }
}

/// Builds the injected block for one cosmetic reply.
pub fn build_injection(c: &CosmeticBlockerResult) -> (r: String)
    ensures
        r@ == injection_text(
            c.hidden_selectors.deep_view(),
            pairs_view(c.style_selectors@),
            script_view(c.injected_script),
        ),
{
    let mut s = String::new();
    s.append("\n<!-- privaxy proxy -->\n<style>");
    let hn = c.hidden_selectors.len();
    proof {
        assert(c.hidden_selectors.deep_view().take(0) =~~= Seq::<Seq<char>>::empty());
    }
    for i in 0..hn
        invariant
            hn == c.hidden_selectors.len(),
            s@ == "\n<!-- privaxy proxy -->\n<style>"@ + hidden_css(
                c.hidden_selectors.deep_view().take(i as int),
            ),
    {
        s.append(c.hidden_selectors[i].as_str());
        s.append(" { display: none !important; }");
        proof {
            let dv = c.hidden_selectors.deep_view();
            assert(dv.take(i + 1).drop_last() =~~= dv.take(i as int));
            assert(dv.take(i + 1).last() == dv[i as int]);
            assert(dv[i as int] == c.hidden_selectors@[i as int]@);
        }
    }
    proof {
        assert(c.hidden_selectors.deep_view().take(hn as int) =~~= c.hidden_selectors.deep_view());
    }
    s.append("\n");
    let ghost styled_prefix = s@;
    let pn = c.style_selectors.len();
    proof {
        assert(pairs_view(c.style_selectors@).take(0) =~~= Seq::<(Seq<char>, Seq<Seq<char>>)>::empty());
    }
    for i in 0..pn
        invariant
            pn == c.style_selectors.len(),
            s@ == styled_prefix + styled_css(pairs_view(c.style_selectors@).take(i as int)),
    {
        s.append(c.style_selectors[i].0.as_str());
        s.append(" { ");
        let decls = &c.style_selectors[i].1;
        let dn = decls.len();
        let ghost decl_prefix = s@;
        proof {
            assert(decls.deep_view().take(0) =~~= Seq::<Seq<char>>::empty());
        }
        for j in 0..dn
            invariant
                dn == decls.len(),
                s@ == decl_prefix + join_semi(decls.deep_view().take(j as int)),
        {
            if j > 0 {
                s.append(";");
            }
            s.append(decls[j].as_str());
            proof {
                let ddv = decls.deep_view();
                assert(ddv.take(j + 1).drop_last() =~~= ddv.take(j as int));
                assert(ddv.take(j + 1).last() == ddv[j as int]);
                assert(ddv[j as int] == decls@[j as int]@);
                if j == 0 {
                    assert(join_semi(ddv.take(1)) == ddv.take(1)[0]);
                }
            }
        }
        s.append(" }");
        proof {
            let pv = pairs_view(c.style_selectors@);
            assert(decls.deep_view().take(dn as int) =~~= decls.deep_view());
            assert(pv.take(i + 1).drop_last() =~~= pv.take(i as int));
            assert(pv.take(i + 1).last() == pv[i as int]);
            assert(pv[i as int].0 == c.style_selectors@[i as int].0@);
            assert(pv[i as int].1 =~~= c.style_selectors@[i as int].1.deep_view());
        }
    }
    proof {
        assert(pairs_view(c.style_selectors@).take(pn as int) =~~= pairs_view(c.style_selectors@));
    }
    s.append("\n</style>\n<!-- privaxy proxy -->");
    match &c.injected_script {
        Some(script) => {
            s.append("\n<!-- privaxy proxy -->\n<script type=\"application/javascript\">");
            s.append(script.as_str());
            s.append("</script>\n<!-- privaxy proxy -->\n");
        },
        None => {},
    }
    s
}

/// Relies on String::from_utf8: succeeds exactly on valid UTF-8, and the
/// returned string's bytes are the input bytes.
#[verifier::external_body]
fn string_from_utf8(v: Vec<u8>) -> (r: Option<String>)
    ensures
        r is Some <==> valid_utf8(v@),
        r matches Some(s) ==> encode_utf8(s@) == v@,
{
    String::from_utf8(v).ok()
}

/// The valid UTF-8 members of a list of byte strings, decoded, in order.
pub open spec fn decode_list(l: Seq<Seq<u8>>) -> Seq<Seq<char>>
    decreases l.len(),
{
    if l.len() == 0 {
        Seq::empty()
    } else if valid_utf8(l[0]) {
        seq![decode_utf8(l[0])] + decode_list(l.drop_first())
    } else {
        decode_list(l.drop_first())
    }
}

/// Decodes a list of byte strings, dropping the ones that are not UTF-8.
fn decode_strings(l: &Vec<Vec<u8>>) -> (r: Vec<String>)
    ensures
        r.deep_view() == decode_list(l.deep_view()),
{
    let n = l.len();
    let mut out: Vec<String> = Vec::new();
    proof {
        assert(out.deep_view() + decode_list(l.deep_view().skip(0)) =~~= decode_list(l.deep_view()))
            by {
            assert(l.deep_view().skip(0) =~~= l.deep_view());
            assert(out.deep_view() =~~= Seq::<Seq<char>>::empty());
        }
    }
    for i in 0..n
        invariant
            n == l.len(),
            out.deep_view() + decode_list(l.deep_view().skip(i as int)) == decode_list(
                l.deep_view(),
            ),
    {
        let bytes = clone_bytes(&l[i]);
        proof {
            assert(bytes@ == l.deep_view()[i as int]);
            assert(l.deep_view().skip(i as int)[0] == l.deep_view()[i as int]);
            assert(l.deep_view().skip(i as int).drop_first() =~~= l.deep_view().skip(i + 1));
        }
        match string_from_utf8(bytes) {
            Some(s) => {
                proof {
                    broadcast use encode_utf8_decode_utf8;

                    assert(encode_utf8(s@) == l.deep_view()[i as int]);
                    assert(decode_utf8(l.deep_view()[i as int]) == s@);
                }
                let ghost before = out.deep_view();
                out.push(s);
                proof {
                    assert(out.deep_view() =~~= before.push(
                        decode_utf8(l.deep_view()[i as int]),
                    ));
                    assert(before.push(decode_utf8(l.deep_view()[i as int])) + decode_list(
                        l.deep_view().skip(i + 1),
                    ) =~~= before + decode_list(l.deep_view().skip(i as int)));
                }
            },
            None => {},
        }
    }
    proof {
        assert(l.deep_view().skip(n as int) =~~= Seq::<Seq<u8>>::empty());
        assert(out.deep_view() + decode_list(l.deep_view().skip(n as int)) =~~= out.deep_view());
    }
    out
}

impl Rewriter {
    /// The URL this body belongs to.
    pub fn page_url(&self) -> (r: String)
        ensures
            r@ == self.spec_url(),
    {
        self.url.clone()
    }

    /// The id attribute values collected so far, as strings, UTF-8 permitting.
    pub fn collected_ids(&self) -> (r: Vec<String>)
        ensures
            r.deep_view() == decode_list(self.model().ids),
    {
        decode_strings(&self.ids)
    }

    /// The class tokens collected so far, as strings, UTF-8 permitting.
    pub fn collected_classes(&self) -> (r: Vec<String>)
        ensures
            r.deep_view() == decode_list(self.model().classes),
    {
        decode_strings(&self.classes)
    }

    /// Ends the stream: sends whatever was still held back, then the
    /// injected block, then the captured end tag. The cosmetic reply is
    /// consulted here for the first time.
    pub fn finish(self, c: &CosmeticBlockerResult) -> (out: Vec<u8>)
        ensures
            out@ == self.model().pending + encode_utf8(
                injection_text(
                    c.hidden_selectors.deep_view(),
                    pairs_view(c.style_selectors@),
                    script_view(c.injected_script),
                ),
            ) + self.model().held,
    {
        let injection = build_injection(c);
        let mut out = self.pending;
        let mut inj_bytes = injection.as_str().as_bytes_vec();
        out.append(&mut inj_bytes);
        let mut tag = self.held;
        out.append(&mut tag);
        out
    }
}

/// Steps the modified-responses counter exactly when the reply makes the
/// response count as modified: style rules or an injected script, never
/// hiding alone.
pub fn count_if_modified(stats: &mut crate::stats::Statistics, reply: &CosmeticBlockerResult)
    ensures
        spec_modified(*reply) ==> *final(stats) == (crate::stats::Statistics {
            modified_responses: crate::stats::bump(old(stats).modified_responses),
            ..*old(stats)
        }),
        !spec_modified(*reply) ==> *final(stats) == *old(stats),
{
    if is_modified(reply) {
        stats.increment_modified_responses();
    }
}

// ---------------------------------------------------------------------------
// Laws of the stream.
// ---------------------------------------------------------------------------

/// Scanning a concatenation scans the parts in order.
pub proof fn lemma_scan_bytes_concat(m: ScannerModel, a: Seq<u8>, b: Seq<u8>)
    ensures
        scan_bytes(m, a + b) == scan_bytes(scan_bytes(m, a), b),
    decreases a.len(),
{
    if a.len() == 0 {
        assert(a + b =~= b);
    } else {
        assert((a + b)[0] == a[0]);
        assert((a + b).drop_first() =~= a.drop_first() + b);
        lemma_scan_bytes_concat(scan_byte(m, a[0]), a.drop_first(), b);
    }
}

/// Streaming: what has been forwarded after any prefix of the body is a
/// prefix of all that is ever forwarded, and it is a function of the body
/// bytes alone. No cosmetic data enters before `finish`: a client reading
/// the stream sees the early bytes before any cosmetic lookup resolves.
pub proof fn lemma_streaming_prefix(bs1: Seq<u8>, bs2: Seq<u8>)
    ensures
        emitted_delta(initial_model(), scan_bytes(initial_model(), bs1)).is_prefix_of(
            emitted_delta(initial_model(), scan_bytes(initial_model(), bs1 + bs2)),
        ),
{
    let m0 = initial_model();
    let m1 = scan_bytes(m0, bs1);
    let m2 = scan_bytes(m0, bs1 + bs2);
    lemma_scan_bytes_concat(m0, bs1, bs2);
    lemma_scan_bytes(m0, bs1);
    lemma_scan_bytes(m1, bs2);
    let d1 = emitted_delta(m0, m1);
    let d2 = emitted_delta(m0, m2);
    if m1.matched {
        assert(m2.out_pre == m1.out_pre);
        assert(d1.is_prefix_of(d2)) by {
            assert(d2.take(d1.len() as int) =~= d1);
        }
    } else {
        assert(m1.out_post == Seq::<u8>::empty());
        assert(d1.is_prefix_of(d2)) by {
            assert(d2.take(d1.len() as int) =~= d1);
        }
    }
}

/// The bytes the client receives over the whole stream: what streamed out,
/// then what `finish` sends.
pub open spec fn client_stream(bs: Seq<u8>, injection: Seq<u8>) -> Seq<u8> {
    let m = scan_bytes(initial_model(), bs);
    emitted_delta(initial_model(), m) + (m.pending + injection + m.held)
}

/// Output reconstruction: every body byte reaches the client exactly once
/// and in order. The client receives the body with the captured end tag
/// removed, then the injected block, then that end tag; when no end tag was
/// captured, the whole body followed by the injected block.
pub proof fn lemma_output_reconstruction(bs: Seq<u8>, injection: Seq<u8>)
    ensures
        ({
            let m = scan_bytes(initial_model(), bs);
            &&& bs == m.out_pre + m.held + m.out_post + m.pending
            &&& client_stream(bs, injection) == m.out_pre + m.out_post + m.pending + injection
                + m.held
            &&& !m.matched ==> m.held == Seq::<u8>::empty()
        }),
{
    let m0 = initial_model();
    let m = scan_bytes(m0, bs);
    lemma_scan_bytes(m0, bs);
    assert(consumed(m0) + bs =~= bs);
    assert(bs =~= m.out_pre + m.held + m.out_post + m.pending);
    assert(client_stream(bs, injection) =~= m.out_pre + m.out_post + m.pending + injection
        + m.held);
}

} // verus!

//! The interface-description document parser.
//!
//! A document is a tree of markup elements: a root `node` element holding
//! `interface` elements, which hold `signal` elements, which hold `arg`
//! elements carrying a `type` attribute.  Unknown elements (methods,
//! properties, annotations, nested nodes) are skipped whole; comments,
//! declarations and processing instructions are ignored.  The grammar is
//! defined by `parse_spec`: a tag scanner (`next_tag`) feeding a state
//! machine (`step_tag`), both spec-level functions; `parse` is proved to
//! return exactly what they define.  A document that does not conform is a
//! `StructuralError` carrying the document's identifier.

use crate::grammar::{check_single_type, is_single_type};
use crate::model::{Document, Interface, InterfaceView, Parameter, ParameterView, Signal,
    SignalView};
use crate::text::is_ws_char;
use vstd::prelude::*;
use vstd::string::{StrSliceExecFns, StringExecFns};

verus! {

/// A document failed to parse; carries the offending document's identifier.
#[derive(Debug)]
pub struct StructuralError {
    pub document_identifier: String,
}

pub struct StructuralErrorView {
    pub document_identifier: Seq<char>,
}

impl View for StructuralError {
    type V = StructuralErrorView;

    open spec fn view(&self) -> StructuralErrorView {
        StructuralErrorView { document_identifier: self.document_identifier@ }
    }
}

/// Characters accepted in element and attribute names.
pub open spec fn is_name_char(c: char) -> bool {
    ||| ('a' as u32 <= c as u32 && c as u32 <= 'z' as u32)
    ||| ('A' as u32 <= c as u32 && c as u32 <= 'Z' as u32)
    ||| ('0' as u32 <= c as u32 && c as u32 <= '9' as u32)
    ||| c == '_'
    ||| c == '-'
    ||| c == '.'
    ||| c == ':'
}

/// The first position at or after `i` holding `c`, else the text's length.
pub open spec fn find_char(s: Seq<char>, i: int, c: char) -> int
    decreases s.len() - i,
{
    if i < 0 || i >= s.len() {
        s.len() as int
    } else if s[i] == c {
        i
    } else {
        find_char(s, i + 1, c)
    }
}

/// The first position at or after `i` where `c1 c2 c3` occur in a row, else
/// the text's length.
pub open spec fn find_triple(s: Seq<char>, i: int, c1: char, c2: char, c3: char) -> int
    decreases s.len() - i,
{
    if i < 0 || i + 2 >= s.len() {
        s.len() as int
    } else if s[i] == c1 && s[i + 1] == c2 && s[i + 2] == c3 {
        i
    } else {
        find_triple(s, i + 1, c1, c2, c3)
    }
}

/// The position of the first non-whitespace character at or after `i`.
pub open spec fn ws_end(s: Seq<char>, i: int) -> int
    decreases s.len() - i,
{
    if i < 0 || i >= s.len() {
        i
    } else if is_ws_char(s[i]) {
        ws_end(s, i + 1)
    } else {
        i
    }
}

/// The position just past the run of name characters starting at `i`.
pub open spec fn name_end(s: Seq<char>, i: int) -> int
    decreases s.len() - i,
{
    if i < 0 || i >= s.len() {
        i
    } else if is_name_char(s[i]) {
        name_end(s, i + 1)
    } else {
        i
    }
}

/// One scanned markup tag: an opening tag with its attributes, a closing
/// tag, or markup without structural content (comment, declaration,
/// processing instruction).
pub enum TagView {
    Open { name: Seq<char>, attrs: Seq<(Seq<char>, Seq<char>)>, self_closing: bool },
    Close { name: Seq<char> },
    Misc,
}

pub enum AttrsView {
    Bad,
    Done { attrs: Seq<(Seq<char>, Seq<char>)>, self_closing: bool, next: int },
}

/// Scans the attribute list of an opening tag, from `i` up to `>` or `/>`;
/// each attribute is a name, `=`, and a quoted value.
pub open spec fn attrs_scan(s: Seq<char>, i: int) -> AttrsView
    decreases s.len() - i,
{
    if i < 0 || i >= s.len() {
        AttrsView::Bad
    } else {
        let k = ws_end(s, i);
        if k >= s.len() {
            AttrsView::Bad
        } else if s[k] == '>' {
            AttrsView::Done { attrs: Seq::empty(), self_closing: false, next: k + 1 }
        } else if s[k] == '/' {
            if k + 1 < s.len() && s[k + 1] == '>' {
                AttrsView::Done { attrs: Seq::empty(), self_closing: true, next: k + 2 }
            } else {
                AttrsView::Bad
            }
        } else {
            let e = name_end(s, k);
            if e == k {
                AttrsView::Bad
            } else {
                let p = ws_end(s, e);
                if p < s.len() && s[p] == '=' {
                    let q = ws_end(s, p + 1);
                    if q < s.len() && (s[q] == '"' || s[q] == '\'') {
                        let v = find_char(s, q + 1, s[q]);
                        if v < s.len() && i < v + 1 {
                            match attrs_scan(s, v + 1) {
                                AttrsView::Bad => AttrsView::Bad,
                                AttrsView::Done { attrs, self_closing, next } => AttrsView::Done {
                                    attrs: seq![(s.subrange(k, e), s.subrange(q + 1, v))] + attrs,
                                    self_closing,
                                    next,
                                },
                            }
                        } else {
                            AttrsView::Bad
                        }
                    } else {
                        AttrsView::Bad
                    }
                } else {
                    AttrsView::Bad
                }
            }
        }
    }
}

pub enum ScanView {
    End,
    Bad,
    Tok { tag: TagView, next: int },
}

/// Scans the next tag at or after `i`, ignoring text content before it:
/// `End` when no `<` remains, `Bad` on malformed markup, else the tag and
/// the position just past it.
pub open spec fn next_tag(s: Seq<char>, i: int) -> ScanView {
    let j = find_char(s, i, '<');
    if j >= s.len() {
        ScanView::End
    } else if j + 1 >= s.len() {
        ScanView::Bad
    } else if s[j + 1] == '!' {
        if j + 3 < s.len() && s[j + 2] == '-' && s[j + 3] == '-' {
            let k = find_triple(s, j + 4, '-', '-', '>');
            if k >= s.len() {
                ScanView::Bad
            } else {
                ScanView::Tok { tag: TagView::Misc, next: k + 3 }
            }
        } else {
            let k = find_char(s, j + 2, '>');
            if k >= s.len() {
                ScanView::Bad
            } else {
                ScanView::Tok { tag: TagView::Misc, next: k + 1 }
            }
        }
    } else if s[j + 1] == '?' {
        let k = find_char(s, j + 2, '>');
        if k >= s.len() {
            ScanView::Bad
        } else {
            ScanView::Tok { tag: TagView::Misc, next: k + 1 }
        }
    } else if s[j + 1] == '/' {
        let e = name_end(s, j + 2);
        if e == j + 2 {
            ScanView::Bad
        } else {
            let k = ws_end(s, e);
            if k < s.len() && s[k] == '>' {
                ScanView::Tok { tag: TagView::Close { name: s.subrange(j + 2, e) }, next: k + 1 }
            } else {
                ScanView::Bad
            }
        }
    } else {
        let e = name_end(s, j + 1);
        if e == j + 1 {
            ScanView::Bad
        } else {
            match attrs_scan(s, e) {
                AttrsView::Bad => ScanView::Bad,
                AttrsView::Done { attrs, self_closing, next } => ScanView::Tok {
                    tag: TagView::Open { name: s.subrange(j + 1, e), attrs, self_closing },
                    next,
                },
            }
        }
    }
}

/// The value of the first attribute named `name`.
pub open spec fn attr_value(attrs: Seq<(Seq<char>, Seq<char>)>, name: Seq<char>) -> Option<
    Seq<char>,
>
    decreases attrs.len(),
{
    if attrs.len() == 0 {
        Option::None
    } else if attrs.first().0 == name {
        Option::Some(attrs.first().1)
    } else {
        attr_value(attrs.drop_first(), name)
    }
}

/// Where the builder returns when a skipped subtree closes.
pub enum ResumePoint {
    AtNode { acc: Seq<InterfaceView> },
    AtIface { acc: Seq<InterfaceView>, iface_name: Seq<char>, sigs: Seq<SignalView> },
    AtSignal {
        acc: Seq<InterfaceView>,
        iface_name: Seq<char>,
        sigs: Seq<SignalView>,
        sig_name: Seq<char>,
        params: Seq<ParameterView>,
    },
}

/// The builder's state while folding the tag stream into the model.
pub enum BuildView {
    Prolog,
    InNode { acc: Seq<InterfaceView> },
    InIface { acc: Seq<InterfaceView>, iface_name: Seq<char>, sigs: Seq<SignalView> },
    InSignal {
        acc: Seq<InterfaceView>,
        iface_name: Seq<char>,
        sigs: Seq<SignalView>,
        sig_name: Seq<char>,
        params: Seq<ParameterView>,
    },
    Skipping { depth: int, resume: ResumePoint },
    Finished { acc: Seq<InterfaceView> },
}

pub open spec fn resume_state(r: ResumePoint) -> BuildView {
    match r {
        ResumePoint::AtNode { acc } => BuildView::InNode { acc },
        ResumePoint::AtIface { acc, iface_name, sigs } => BuildView::InIface {
            acc,
            iface_name,
            sigs,
        },
        ResumePoint::AtSignal { acc, iface_name, sigs, sig_name, params } => BuildView::InSignal {
            acc,
            iface_name,
            sigs,
            sig_name,
            params,
        },
    }
}

/// How one scanned tag advances the builder; `None` is a structural error:
/// a misplaced or unclosed element, a missing or empty `name` attribute, or
/// an `arg` whose `type` attribute is not one complete wire-type token.
pub open spec fn step_tag(st: BuildView, tag: TagView) -> Option<BuildView> {
    match tag {
        TagView::Misc => Option::Some(st),
        TagView::Open { name, attrs, self_closing } => match st {
            BuildView::Prolog => {
                if name == "node"@ {
                    if self_closing {
                        Option::Some(BuildView::Finished { acc: Seq::empty() })
                    } else {
                        Option::Some(BuildView::InNode { acc: Seq::empty() })
                    }
                } else {
                    Option::None
                }
            },
            BuildView::InNode { acc } => {
                if name == "interface"@ {
                    match attr_value(attrs, "name"@) {
                        Option::Some(n) => {
                            if n.len() > 0 {
                                if self_closing {
                                    Option::Some(
                                        BuildView::InNode {
                                            acc: acc + seq![
                                                InterfaceView { name: n, signals: Seq::empty() },
                                            ],
                                        },
                                    )
                                } else {
                                    Option::Some(
                                        BuildView::InIface {
                                            acc,
                                            iface_name: n,
                                            sigs: Seq::empty(),
                                        },
                                    )
                                }
                            } else {
                                Option::None
                            }
                        },
                        Option::None => Option::None,
                    }
                } else if self_closing {
                    Option::Some(BuildView::InNode { acc })
                } else {
                    Option::Some(
                        BuildView::Skipping { depth: 1, resume: ResumePoint::AtNode { acc } },
                    )
                }
            },
            BuildView::InIface { acc, iface_name, sigs } => {
                if name == "signal"@ {
                    match attr_value(attrs, "name"@) {
                        Option::Some(n) => {
                            if n.len() > 0 {
                                if self_closing {
                                    Option::Some(
                                        BuildView::InIface {
                                            acc,
                                            iface_name,
                                            sigs: sigs + seq![
                                                SignalView { name: n, parameters: Seq::empty() },
                                            ],
                                        },
                                    )
                                } else {
                                    Option::Some(
                                        BuildView::InSignal {
                                            acc,
                                            iface_name,
                                            sigs,
                                            sig_name: n,
                                            params: Seq::empty(),
                                        },
                                    )
                                }
                            } else {
                                Option::None
                            }
                        },
                        Option::None => Option::None,
                    }
                } else if self_closing {
                    Option::Some(BuildView::InIface { acc, iface_name, sigs })
                } else {
                    Option::Some(
                        BuildView::Skipping {
                            depth: 1,
                            resume: ResumePoint::AtIface { acc, iface_name, sigs },
                        },
                    )
                }
            },
            BuildView::InSignal { acc, iface_name, sigs, sig_name, params } => {
                if name == "arg"@ {
                    match attr_value(attrs, "type"@) {
                        Option::Some(t) => {
                            if is_single_type(t) {
                                let params2 = params + seq![ParameterView { type_signature: t }];
                                if self_closing {
                                    Option::Some(
                                        BuildView::InSignal {
                                            acc,
                                            iface_name,
                                            sigs,
                                            sig_name,
                                            params: params2,
                                        },
                                    )
                                } else {
                                    Option::Some(
                                        BuildView::Skipping {
                                            depth: 1,
                                            resume: ResumePoint::AtSignal {
                                                acc,
                                                iface_name,
                                                sigs,
                                                sig_name,
                                                params: params2,
                                            },
                                        },
                                    )
                                }
                            } else {
                                Option::None
                            }
                        },
                        Option::None => Option::None,
                    }
                } else if self_closing {
                    Option::Some(
                        BuildView::InSignal { acc, iface_name, sigs, sig_name, params },
                    )
                } else {
                    Option::Some(
                        BuildView::Skipping {
                            depth: 1,
                            resume: ResumePoint::AtSignal {
                                acc,
                                iface_name,
                                sigs,
                                sig_name,
                                params,
                            },
                        },
                    )
                }
            },
            BuildView::Skipping { depth, resume } => {
                if self_closing {
                    Option::Some(BuildView::Skipping { depth, resume })
                } else {
                    Option::Some(BuildView::Skipping { depth: depth + 1, resume })
                }
            },
            BuildView::Finished { .. } => Option::None,
        },
        TagView::Close { name } => match st {
            BuildView::Prolog => Option::None,
            BuildView::InNode { acc } => {
                if name == "node"@ {
                    Option::Some(BuildView::Finished { acc })
                } else {
                    Option::None
                }
            },
            BuildView::InIface { acc, iface_name, sigs } => {
                if name == "interface"@ {
                    Option::Some(
                        BuildView::InNode {
                            acc: acc + seq![InterfaceView { name: iface_name, signals: sigs }],
                        },
                    )
                } else {
                    Option::None
                }
            },
            BuildView::InSignal { acc, iface_name, sigs, sig_name, params } => {
                if name == "signal"@ {
                    Option::Some(
                        BuildView::InIface {
                            acc,
                            iface_name,
                            sigs: sigs + seq![SignalView { name: sig_name, parameters: params }],
                        },
                    )
                } else {
                    Option::None
                }
            },
            BuildView::Skipping { depth, resume } => {
                if depth <= 1 {
                    Option::Some(resume_state(resume))
                } else {
                    Option::Some(BuildView::Skipping { depth: depth - 1, resume })
                }
            },
            BuildView::Finished { .. } => Option::None,
        },
    }
}

/// Folds the tag stream from position `i` in state `st` to the finished
/// interface list, or `None` on any structural error.
pub open spec fn run_tags(s: Seq<char>, i: int, st: BuildView) -> Option<Seq<InterfaceView>>
    decreases s.len() - i,
{
    match next_tag(s, i) {
        ScanView::End => match st {
            BuildView::Finished { acc } => Option::Some(acc),
            _ => Option::None,
        },
        ScanView::Bad => Option::None,
        ScanView::Tok { tag, next } => {
            if next <= i || next > s.len() {
                Option::None
            } else {
                match step_tag(st, tag) {
                    Option::Some(st2) => run_tags(s, next, st2),
                    Option::None => Option::None,
                }
            }
        },
    }
}

/// The grammar of a whole document: the interface list its markup denotes,
/// or `None` when the text is not a well-formed document.
pub open spec fn parse_spec(text: Seq<char>) -> Option<Seq<InterfaceView>> {
    run_tags(text, 0, BuildView::Prolog)
}

pub open spec fn acc_wf(acc: Seq<InterfaceView>) -> bool {
    forall|k: int| 0 <= k < acc.len() ==> (#[trigger] acc[k]).wf()
}

pub open spec fn sigs_wf(sigs: Seq<SignalView>) -> bool {
    forall|k: int| 0 <= k < sigs.len() ==> (#[trigger] sigs[k]).wf()
}

pub open spec fn params_wf(params: Seq<ParameterView>) -> bool {
    forall|k: int| 0 <= k < params.len() ==> (#[trigger] params[k]).wf()
}

/// Everything the builder has accumulated is well formed.
pub open spec fn state_wf(st: BuildView) -> bool {
    match st {
        BuildView::Prolog => true,
        BuildView::InNode { acc } => acc_wf(acc),
        BuildView::InIface { acc, iface_name, sigs } => acc_wf(acc) && iface_name.len() > 0
            && sigs_wf(sigs),
        BuildView::InSignal { acc, iface_name, sigs, sig_name, params } => acc_wf(acc)
            && iface_name.len() > 0 && sigs_wf(sigs) && sig_name.len() > 0 && params_wf(params),
        BuildView::Skipping { depth, resume } => match resume {
            ResumePoint::AtNode { acc } => acc_wf(acc),
            ResumePoint::AtIface { acc, iface_name, sigs } => acc_wf(acc) && iface_name.len() > 0
                && sigs_wf(sigs),
            ResumePoint::AtSignal { acc, iface_name, sigs, sig_name, params } => acc_wf(acc)
                && iface_name.len() > 0 && sigs_wf(sigs) && sig_name.len() > 0 && params_wf(
                params,
            ),
        },
        BuildView::Finished { acc } => acc_wf(acc),
    }
}

proof fn lemma_step_wf(st: BuildView, tag: TagView, st2: BuildView)
    requires
        state_wf(st),
        step_tag(st, tag) == Option::Some(st2),
    ensures
        state_wf(st2),
{
    match tag {
        TagView::Misc => {},
        TagView::Open { name, attrs, self_closing } => match st {
            BuildView::InNode { acc } => {
                if name == "interface"@ && self_closing {
                    match attr_value(attrs, "name"@) {
                        Option::Some(n) => {
                            if n.len() > 0 {
                                let one = InterfaceView { name: n, signals: Seq::empty() };
                                assert(one.wf());
                                assert forall|k: int| 0 <= k < (acc + seq![one]).len() implies (
                                #[trigger] (acc + seq![one])[k]).wf() by {
                                    if k < acc.len() {
                                        assert(acc[k].wf());
                                    } else {
                                        assert((acc + seq![one])[k] == one);
                                    }
                                }
                            }
                        },
                        Option::None => {},
                    }
                }
            },
            BuildView::InIface { acc, iface_name, sigs } => {
                if name == "signal"@ && self_closing {
                    match attr_value(attrs, "name"@) {
                        Option::Some(n) => {
                            if n.len() > 0 {
                                let one = SignalView { name: n, parameters: Seq::empty() };
                                assert(one.wf());
                                assert forall|k: int| 0 <= k < (sigs + seq![one]).len() implies (
                                #[trigger] (sigs + seq![one])[k]).wf() by {
                                    if k < sigs.len() {
                                        assert(sigs[k].wf());
                                    } else {
                                        assert((sigs + seq![one])[k] == one);
                                    }
                                }
                            }
                        },
                        Option::None => {},
                    }
                }
            },
            BuildView::InSignal { acc, iface_name, sigs, sig_name, params } => {
                if name == "arg"@ {
                    match attr_value(attrs, "type"@) {
                        Option::Some(t) => {
                            if is_single_type(t) {
                                let one = ParameterView { type_signature: t };
                                assert(one.wf());
                                assert forall|k: int| 0 <= k < (params + seq![one]).len() implies (
                                #[trigger] (params + seq![one])[k]).wf() by {
                                    if k < params.len() {
                                        assert(params[k].wf());
                                    } else {
                                        assert((params + seq![one])[k] == one);
                                    }
                                }
                            }
                        },
                        Option::None => {},
                    }
                }
            },
            _ => {},
        },
        TagView::Close { name } => match st {
            BuildView::InIface { acc, iface_name, sigs } => {
                if name == "interface"@ {
                    let one = InterfaceView { name: iface_name, signals: sigs };
                    assert(one.wf());
                    assert forall|k: int| 0 <= k < (acc + seq![one]).len() implies (#[trigger] (acc
                        + seq![one])[k]).wf() by {
                        if k < acc.len() {
                            assert(acc[k].wf());
                        } else {
                            assert((acc + seq![one])[k] == one);
                        }
                    }
                }
            },
            BuildView::InSignal { acc, iface_name, sigs, sig_name, params } => {
                if name == "signal"@ {
                    let one = SignalView { name: sig_name, parameters: params };
                    assert(one.wf());
                    assert forall|k: int| 0 <= k < (sigs + seq![one]).len() implies (#[trigger] (
                    sigs + seq![one])[k]).wf() by {
                        if k < sigs.len() {
                            assert(sigs[k].wf());
                        } else {
                            assert((sigs + seq![one])[k] == one);
                        }
                    }
                }
            },
            _ => {},
        },
    }
}

fn name_char(c: char) -> (b: bool)
    ensures
        b == is_name_char(c),
{
    let u = c as u32;
    (97 <= u && u <= 122) || (65 <= u && u <= 90) || (48 <= u && u <= 57) || c == '_' || c == '-'
        || c == '.' || c == ':'
}

#[verifier::loop_isolation(false)]
fn find_char_x(s: &str, n: usize, i: usize, c: char) -> (r: usize)
    requires
        n == s@.len(),
        i <= n,
    ensures
        r as int == find_char(s@, i as int, c),
        i <= r <= n,
{
    let mut j = i;
    while j < n
        invariant
            i <= j <= n,
            find_char(s@, i as int, c) == find_char(s@, j as int, c),
        decreases n - j,
    {
        if s.get_char(j) == c {
            return j;
        }
        j = j + 1;
    }
    n
}

#[verifier::loop_isolation(false)]
fn find_triple_x(s: &str, n: usize, i: usize, c1: char, c2: char, c3: char) -> (r: usize)
    requires
        n == s@.len(),
        i <= n,
    ensures
        r as int == find_triple(s@, i as int, c1, c2, c3),
        i <= r <= n,
        r < n ==> r + 2 < n,
{
    if n < 3 {
        return n;
    }
    let mut j = i;
    while j < n - 2
        invariant
            i <= j,
            j <= n,
            find_triple(s@, i as int, c1, c2, c3) == find_triple(s@, j as int, c1, c2, c3),
        decreases n - j,
    {
        if s.get_char(j) == c1 && s.get_char(j + 1) == c2 && s.get_char(j + 2) == c3 {
            return j;
        }
        j = j + 1;
    }
    n
}

#[verifier::loop_isolation(false)]
fn ws_end_x(s: &str, n: usize, i: usize) -> (r: usize)
    requires
        n == s@.len(),
        i <= n,
    ensures
        r as int == ws_end(s@, i as int),
        i <= r <= n,
{
    let mut j = i;
    while j < n
        invariant
            i <= j <= n,
            ws_end(s@, i as int) == ws_end(s@, j as int),
        decreases n - j,
    {
        if !crate::text::ws_char(s.get_char(j)) {
            return j;
        }
        j = j + 1;
    }
    j
}

#[verifier::loop_isolation(false)]
fn name_end_x(s: &str, n: usize, i: usize) -> (r: usize)
    requires
        n == s@.len(),
        i <= n,
    ensures
        r as int == name_end(s@, i as int),
        i <= r <= n,
{
    let mut j = i;
    while j < n
        invariant
            i <= j <= n,
            name_end(s@, i as int) == name_end(s@, j as int),
        decreases n - j,
    {
        if !name_char(s.get_char(j)) {
            return j;
        }
        j = j + 1;
    }
    j
}

/// The executable mirror of `TagView`.
pub enum Tag {
    Open { name: String, attrs: Vec<(String, String)>, self_closing: bool },
    Close { name: String },
    Misc,
}

pub open spec fn attr_pairs_view(attrs: Seq<(String, String)>) -> Seq<(Seq<char>, Seq<char>)> {
    attrs.map_values(|p: (String, String)| (p.0@, p.1@))
}

pub open spec fn tag_view(t: Tag) -> TagView {
    match t {
        Tag::Open { name, attrs, self_closing } => TagView::Open {
            name: name@,
            attrs: attr_pairs_view(attrs@),
            self_closing,
        },
        Tag::Close { name } => TagView::Close { name: name@ },
        Tag::Misc => TagView::Misc,
    }
}

enum AttrsScan {
    Bad,
    Done { attrs: Vec<(String, String)>, self_closing: bool, next: usize },
}

#[verifier::loop_isolation(false)]
fn attrs_scan_x(s: &str, n: usize, i: usize) -> (r: AttrsScan)
    requires
        n == s@.len(),
        i <= n,
    ensures
        (match r {
            AttrsScan::Bad => attrs_scan(s@, i as int) is Bad,
            AttrsScan::Done { attrs, self_closing, next } => attrs_scan(s@, i as int)
                == (AttrsView::Done {
                attrs: attr_pairs_view(attrs@),
                self_closing,
                next: next as int,
            }) && i < next <= n,
        }),
    decreases n - i,
{
    if i >= n {
        return AttrsScan::Bad;
    }
    let k = ws_end_x(s, n, i);
    if k >= n {
        return AttrsScan::Bad;
    }
    let ck = s.get_char(k);
    if ck == '>' {
        let out: Vec<(String, String)> = Vec::new();
        proof {
            assert(attr_pairs_view(out@) =~= Seq::<(Seq<char>, Seq<char>)>::empty());
        }
        return AttrsScan::Done { attrs: out, self_closing: false, next: k + 1 };
    }
    if ck == '/' {
        if k + 1 < n && s.get_char(k + 1) == '>' {
            let out: Vec<(String, String)> = Vec::new();
            proof {
                assert(attr_pairs_view(out@) =~= Seq::<(Seq<char>, Seq<char>)>::empty());
            }
            return AttrsScan::Done { attrs: out, self_closing: true, next: k + 2 };
        }
        return AttrsScan::Bad;
    }
    let e = name_end_x(s, n, k);
    if e == k {
        return AttrsScan::Bad;
    }
    let p = ws_end_x(s, n, e);
    if p >= n || s.get_char(p) != '=' {
        return AttrsScan::Bad;
    }
    let q = ws_end_x(s, n, p + 1);
    if q >= n {
        return AttrsScan::Bad;
    }
    let qc = s.get_char(q);
    if qc != '"' && qc != '\'' {
        return AttrsScan::Bad;
    }
    let v = find_char_x(s, n, q + 1, qc);
    if v >= n {
        return AttrsScan::Bad;
    }
    let rest = attrs_scan_x(s, n, v + 1);
    match rest {
        AttrsScan::Bad => AttrsScan::Bad,
        AttrsScan::Done { attrs, self_closing, next } => {
            let ghost old_attrs = attrs@;
            let name = String::from_str(s.substring_char(k, e));
            let value = String::from_str(s.substring_char(q + 1, v));
            let mut out: Vec<(String, String)> = Vec::new();
            out.push((name, value));
            let mut tail = attrs;
            out.append(&mut tail);
            proof {
                assert(attr_pairs_view(out@) =~= seq![
                    (s@.subrange(k as int, e as int), s@.subrange(q + 1, v as int)),
                ] + attr_pairs_view(old_attrs));
            }
            AttrsScan::Done { attrs: out, self_closing, next }
        },
    }
}

enum Scan {
    End,
    Bad,
    Tok { tag: Tag, next: usize },
}

fn next_tag_x(s: &str, n: usize, i: usize) -> (r: Scan)
    requires
        n == s@.len(),
        i <= n,
    ensures
        (match r {
            Scan::End => next_tag(s@, i as int) is End,
            Scan::Bad => next_tag(s@, i as int) is Bad,
            Scan::Tok { tag, next } => next_tag(s@, i as int) == (ScanView::Tok {
                tag: tag_view(tag),
                next: next as int,
            }) && i < next <= n,
        }),
{
    let j = find_char_x(s, n, i, '<');
    if j >= n {
        return Scan::End;
    }
    if j + 1 >= n {
        return Scan::Bad;
    }
    let c1 = s.get_char(j + 1);
    if c1 == '!' {
        if n - j > 3 && s.get_char(j + 2) == '-' && s.get_char(j + 3) == '-' {
            let k = find_triple_x(s, n, j + 4, '-', '-', '>');
            if k >= n {
                return Scan::Bad;
            }
            return Scan::Tok { tag: Tag::Misc, next: k + 3 };
        }
        let k = find_char_x(s, n, j + 2, '>');
        if k >= n {
            return Scan::Bad;
        }
        return Scan::Tok { tag: Tag::Misc, next: k + 1 };
    }
    if c1 == '?' {
        let k = find_char_x(s, n, j + 2, '>');
        if k >= n {
            return Scan::Bad;
        }
        return Scan::Tok { tag: Tag::Misc, next: k + 1 };
    }
    if c1 == '/' {
        let e = name_end_x(s, n, j + 2);
        if e == j + 2 {
            return Scan::Bad;
        }
        let k = ws_end_x(s, n, e);
        if k < n && s.get_char(k) == '>' {
            let name = String::from_str(s.substring_char(j + 2, e));
            return Scan::Tok { tag: Tag::Close { name }, next: k + 1 };
        }
        return Scan::Bad;
    }
    let e = name_end_x(s, n, j + 1);
    if e == j + 1 {
        return Scan::Bad;
    }
    let scanned = attrs_scan_x(s, n, e);
    match scanned {
        AttrsScan::Bad => Scan::Bad,
        AttrsScan::Done { attrs, self_closing, next } => {
            let name = String::from_str(s.substring_char(j + 1, e));
            Scan::Tok { tag: Tag::Open { name, attrs, self_closing }, next }
        },
    }
}

proof fn lemma_run_tags_wf(s: Seq<char>, i: int, st: BuildView, acc: Seq<InterfaceView>)
    requires
        state_wf(st),
        run_tags(s, i, st) == Option::Some(acc),
    ensures
        acc_wf(acc),
    decreases s.len() - i,
{
    match next_tag(s, i) {
        ScanView::End => {},
        ScanView::Bad => {},
        ScanView::Tok { tag, next } => {
            if i < next <= s.len() {
                match step_tag(st, tag) {
                    Option::Some(st2) => {
                        lemma_step_wf(st, tag, st2);
                        lemma_run_tags_wf(s, next, st2, acc);
                    },
                    Option::None => {},
                }
            }
        },
    }
}

/// The executable mirror of `BuildView`; the three skip variants carry the
/// state to resume when the skipped subtree closes.
enum BuildState {
    Prolog,
    InNode { acc: Vec<Interface> },
    InIface { acc: Vec<Interface>, iface_name: String, sigs: Vec<Signal> },
    InSignal {
        acc: Vec<Interface>,
        iface_name: String,
        sigs: Vec<Signal>,
        sig_name: String,
        params: Vec<Parameter>,
    },
    SkipNode { depth: usize, acc: Vec<Interface> },
    SkipIface { depth: usize, acc: Vec<Interface>, iface_name: String, sigs: Vec<Signal> },
    SkipSignal {
        depth: usize,
        acc: Vec<Interface>,
        iface_name: String,
        sigs: Vec<Signal>,
        sig_name: String,
        params: Vec<Parameter>,
    },
    Finished { acc: Vec<Interface> },
}

spec fn ifaces_view(v: Seq<Interface>) -> Seq<InterfaceView> {
    v.map_values(|x: Interface| x@)
}

spec fn sigs_view(v: Seq<Signal>) -> Seq<SignalView> {
    v.map_values(|x: Signal| x@)
}

spec fn params_view(v: Seq<Parameter>) -> Seq<ParameterView> {
    v.map_values(|x: Parameter| x@)
}

spec fn build_view(st: BuildState) -> BuildView {
    match st {
        BuildState::Prolog => BuildView::Prolog,
        BuildState::InNode { acc } => BuildView::InNode { acc: ifaces_view(acc@) },
        BuildState::InIface { acc, iface_name, sigs } => BuildView::InIface {
            acc: ifaces_view(acc@),
            iface_name: iface_name@,
            sigs: sigs_view(sigs@),
        },
        BuildState::InSignal { acc, iface_name, sigs, sig_name, params } => BuildView::InSignal {
            acc: ifaces_view(acc@),
            iface_name: iface_name@,
            sigs: sigs_view(sigs@),
            sig_name: sig_name@,
            params: params_view(params@),
        },
        BuildState::SkipNode { depth, acc } => BuildView::Skipping {
            depth: depth as int,
            resume: ResumePoint::AtNode { acc: ifaces_view(acc@) },
        },
        BuildState::SkipIface { depth, acc, iface_name, sigs } => BuildView::Skipping {
            depth: depth as int,
            resume: ResumePoint::AtIface {
                acc: ifaces_view(acc@),
                iface_name: iface_name@,
                sigs: sigs_view(sigs@),
            },
        },
        BuildState::SkipSignal { depth, acc, iface_name, sigs, sig_name, params } => {
            BuildView::Skipping {
                depth: depth as int,
                resume: ResumePoint::AtSignal {
                    acc: ifaces_view(acc@),
                    iface_name: iface_name@,
                    sigs: sigs_view(sigs@),
                    sig_name: sig_name@,
                    params: params_view(params@),
                },
            }
        },
        BuildState::Finished { acc } => BuildView::Finished { acc: ifaces_view(acc@) },
    }
}

/// The nesting depth while a subtree is skipped; zero elsewhere.
spec fn build_depth(st: BuildView) -> int {
    match st {
        BuildView::Skipping { depth, .. } => depth,
        _ => 0,
    }
}

#[verifier::loop_isolation(false)]
fn attr_lookup(attrs: &Vec<(String, String)>, wanted: &String) -> (o: Option<String>)
    ensures
        (match o {
            Option::Some(v) => attr_value(attr_pairs_view(attrs@), wanted@) == Option::Some(v@),
            Option::None => attr_value(attr_pairs_view(attrs@), wanted@) is None,
        }),
{
    let ghost pairs = attr_pairs_view(attrs@);
    let m = attrs.len();
    let mut k: usize = 0;
    proof {
        assert(pairs.skip(0) =~= pairs);
    }
    while k < m
        invariant
            k <= m,
            m == attrs.len(),
            attr_value(pairs, wanted@) == attr_value(pairs.skip(k as int), wanted@),
        decreases m - k,
    {
        proof {
            assert(pairs.skip(k as int).first() == pairs[k as int]);
            assert(pairs.skip(k as int).drop_first() =~= pairs.skip(k + 1));
            assert(pairs[k as int] == (attrs@[k as int].0@, attrs@[k as int].1@));
        }
        if attrs[k].0 == *wanted {
            return Option::Some(attrs[k].1.clone());
        }
        k = k + 1;
    }
    proof {
        assert(pairs.skip(m as int) =~= Seq::<(Seq<char>, Seq<char>)>::empty());
    }
    Option::None
}

/// Advances the builder by one scanned tag; `None` is the structural error.
fn apply_tag(st: BuildState, tag: Tag) -> (r: Option<BuildState>)
    requires
        (match st {
            BuildState::SkipNode { depth, .. } => depth < usize::MAX,
            BuildState::SkipIface { depth, .. } => depth < usize::MAX,
            BuildState::SkipSignal { depth, .. } => depth < usize::MAX,
            _ => true,
        }),
    ensures
        (match r {
            Option::Some(st2) => step_tag(build_view(st), tag_view(tag)) == Option::Some(
                build_view(st2),
            ),
            Option::None => step_tag(build_view(st), tag_view(tag)) is None,
        }),
{
    match tag {
        Tag::Misc => Option::Some(st),
        Tag::Open { name, attrs, self_closing } => {
            match st {
                BuildState::Prolog => {
                    if name == String::from_str("node") {
                        if self_closing {
                            proof {
                                assert(ifaces_view(Seq::<Interface>::empty())
                                    =~= Seq::<InterfaceView>::empty());
                            }
                            Option::Some(BuildState::Finished { acc: Vec::new() })
                        } else {
                            proof {
                                assert(ifaces_view(Seq::<Interface>::empty())
                                    =~= Seq::<InterfaceView>::empty());
                            }
                            Option::Some(BuildState::InNode { acc: Vec::new() })
                        }
                    } else {
                        Option::None
                    }
                },
                BuildState::InNode { acc } => {
                    if name == String::from_str("interface") {
                        let wanted = String::from_str("name");
                        match attr_lookup(&attrs, &wanted) {
                            Option::Some(n) => {
                                if !n.as_str().is_empty() {
                                    if self_closing {
                                        let ghost accv = ifaces_view(acc@);
                                        let mut acc2 = acc;
                                        let ghost nv = n@;
                                        acc2.push(Interface { name: n, signals: Vec::new() });
                                        proof {
                                            assert(sigs_view(Seq::<Signal>::empty())
                                                =~= Seq::<SignalView>::empty());
                                            assert(ifaces_view(acc2@) =~= accv + seq![
                                                InterfaceView {
                                                    name: nv,
                                                    signals: Seq::empty(),
                                                },
                                            ]);
                                        }
                                        Option::Some(BuildState::InNode { acc: acc2 })
                                    } else {
                                        proof {
                                            assert(sigs_view(Seq::<Signal>::empty())
                                                =~= Seq::<SignalView>::empty());
                                        }
                                        Option::Some(
                                            BuildState::InIface {
                                                acc,
                                                iface_name: n,
                                                sigs: Vec::new(),
                                            },
                                        )
                                    }
                                } else {
                                    Option::None
                                }
                            },
                            Option::None => Option::None,
                        }
                    } else if self_closing {
                        Option::Some(BuildState::InNode { acc })
                    } else {
                        Option::Some(BuildState::SkipNode { depth: 1, acc })
                    }
                },
                BuildState::InIface { acc, iface_name, sigs } => {
                    if name == String::from_str("signal") {
                        let wanted = String::from_str("name");
                        match attr_lookup(&attrs, &wanted) {
                            Option::Some(n) => {
                                if !n.as_str().is_empty() {
                                    if self_closing {
                                        let ghost sigsv = sigs_view(sigs@);
                                        let mut sigs2 = sigs;
                                        let ghost nv = n@;
                                        sigs2.push(Signal { name: n, parameters: Vec::new() });
                                        proof {
                                            assert(params_view(Seq::<Parameter>::empty())
                                                =~= Seq::<ParameterView>::empty());
                                            assert(sigs_view(sigs2@) =~= sigsv + seq![
                                                SignalView {
                                                    name: nv,
                                                    parameters: Seq::empty(),
                                                },
                                            ]);
                                        }
                                        Option::Some(
                                            BuildState::InIface { acc, iface_name, sigs: sigs2 },
                                        )
                                    } else {
                                        proof {
                                            assert(params_view(Seq::<Parameter>::empty())
                                                =~= Seq::<ParameterView>::empty());
                                        }
                                        Option::Some(
                                            BuildState::InSignal {
                                                acc,
                                                iface_name,
                                                sigs,
                                                sig_name: n,
                                                params: Vec::new(),
                                            },
                                        )
                                    }
                                } else {
                                    Option::None
                                }
                            },
                            Option::None => Option::None,
                        }
                    } else if self_closing {
                        Option::Some(BuildState::InIface { acc, iface_name, sigs })
                    } else {
                        Option::Some(BuildState::SkipIface { depth: 1, acc, iface_name, sigs })
                    }
                },
                BuildState::InSignal { acc, iface_name, sigs, sig_name, params } => {
                    if name == String::from_str("arg") {
                        let wanted = String::from_str("type");
                        match attr_lookup(&attrs, &wanted) {
                            Option::Some(t) => {
                                if check_single_type(t.as_str()) {
                                    let ghost paramsv = params_view(params@);
                                    let ghost tv = t@;
                                    let mut params2 = params;
                                    params2.push(Parameter { type_signature: t });
                                    proof {
                                        assert(params_view(params2@) =~= paramsv + seq![
                                            ParameterView { type_signature: tv },
                                        ]);
                                    }
                                    if self_closing {
                                        Option::Some(
                                            BuildState::InSignal {
                                                acc,
                                                iface_name,
                                                sigs,
                                                sig_name,
                                                params: params2,
                                            },
                                        )
                                    } else {
                                        Option::Some(
                                            BuildState::SkipSignal {
                                                depth: 1,
                                                acc,
                                                iface_name,
                                                sigs,
                                                sig_name,
                                                params: params2,
                                            },
                                        )
                                    }
                                } else {
                                    Option::None
                                }
                            },
                            Option::None => Option::None,
                        }
                    } else if self_closing {
                        Option::Some(
                            BuildState::InSignal { acc, iface_name, sigs, sig_name, params },
                        )
                    } else {
                        Option::Some(
                            BuildState::SkipSignal {
                                depth: 1,
                                acc,
                                iface_name,
                                sigs,
                                sig_name,
                                params,
                            },
                        )
                    }
                },
                BuildState::SkipNode { depth, acc } => {
                    if self_closing {
                        Option::Some(BuildState::SkipNode { depth, acc })
                    } else {
                        Option::Some(BuildState::SkipNode { depth: depth + 1, acc })
                    }
                },
                BuildState::SkipIface { depth, acc, iface_name, sigs } => {
                    if self_closing {
                        Option::Some(BuildState::SkipIface { depth, acc, iface_name, sigs })
                    } else {
                        Option::Some(
                            BuildState::SkipIface { depth: depth + 1, acc, iface_name, sigs },
                        )
                    }
                },
                BuildState::SkipSignal { depth, acc, iface_name, sigs, sig_name, params } => {
                    if self_closing {
                        Option::Some(
                            BuildState::SkipSignal {
                                depth,
                                acc,
                                iface_name,
                                sigs,
                                sig_name,
                                params,
                            },
                        )
                    } else {
                        Option::Some(
                            BuildState::SkipSignal {
                                depth: depth + 1,
                                acc,
                                iface_name,
                                sigs,
                                sig_name,
                                params,
                            },
                        )
                    }
                },
                BuildState::Finished { .. } => Option::None,
            }
        },
        Tag::Close { name } => {
            match st {
                BuildState::Prolog => Option::None,
                BuildState::InNode { acc } => {
                    if name == String::from_str("node") {
                        Option::Some(BuildState::Finished { acc })
                    } else {
                        Option::None
                    }
                },
                BuildState::InIface { acc, iface_name, sigs } => {
                    if name == String::from_str("interface") {
                        let ghost accv = ifaces_view(acc@);
                        let ghost inv = iface_name@;
                        let ghost sigsv = sigs_view(sigs@);
                        let mut acc2 = acc;
                        acc2.push(Interface { name: iface_name, signals: sigs });
                        proof {
                            assert(ifaces_view(acc2@) =~= accv + seq![
                                InterfaceView { name: inv, signals: sigsv },
                            ]);
                        }
                        Option::Some(BuildState::InNode { acc: acc2 })
                    } else {
                        Option::None
                    }
                },
                BuildState::InSignal { acc, iface_name, sigs, sig_name, params } => {
                    if name == String::from_str("signal") {
                        let ghost sigsv = sigs_view(sigs@);
                        let ghost snv = sig_name@;
                        let ghost paramsv = params_view(params@);
                        let mut sigs2 = sigs;
                        sigs2.push(Signal { name: sig_name, parameters: params });
                        proof {
                            assert(sigs_view(sigs2@) =~= sigsv + seq![
                                SignalView { name: snv, parameters: paramsv },
                            ]);
                        }
                        Option::Some(BuildState::InIface { acc, iface_name, sigs: sigs2 })
                    } else {
                        Option::None
                    }
                },
                BuildState::SkipNode { depth, acc } => {
                    if depth <= 1 {
                        Option::Some(BuildState::InNode { acc })
                    } else {
                        Option::Some(BuildState::SkipNode { depth: depth - 1, acc })
                    }
                },
                BuildState::SkipIface { depth, acc, iface_name, sigs } => {
                    if depth <= 1 {
                        Option::Some(BuildState::InIface { acc, iface_name, sigs })
                    } else {
                        Option::Some(
                            BuildState::SkipIface { depth: depth - 1, acc, iface_name, sigs },
                        )
                    }
                },
                BuildState::SkipSignal { depth, acc, iface_name, sigs, sig_name, params } => {
                    if depth <= 1 {
                        Option::Some(
                            BuildState::InSignal { acc, iface_name, sigs, sig_name, params },
                        )
                    } else {
                        Option::Some(
                            BuildState::SkipSignal {
                                depth: depth - 1,
                                acc,
                                iface_name,
                                sigs,
                                sig_name,
                                params,
                            },
                        )
                    }
                },
                BuildState::Finished { .. } => Option::None,
            }
        },
    }
}

/// Parses one interface-description document.  On success the document
/// holds, well formed and in source order, exactly the interfaces, signals
/// and parameters that the grammar (`parse_spec`) assigns to the text; any
/// malformed markup, missing or empty required name, or invalid `arg` type
/// token is a `StructuralError` carrying the supplied identifier.
#[verifier::loop_isolation(false)]
pub fn parse(identifier: &str, text: &str) -> (r: Result<Document, StructuralError>)
    ensures
        (match r {
            Result::Ok(d) => parse_spec(text@) == Option::Some(d@.interfaces) && d@.identifier
                == identifier@ && d@.wf(),
            Result::Err(e) => parse_spec(text@) is None && e@.document_identifier == identifier@,
        }),
{
    let n = text.unicode_len();
    let mut st = BuildState::Prolog;
    let mut i: usize = 0;
    loop
        invariant
            n == text@.len(),
            i <= n,
            run_tags(text@, 0, BuildView::Prolog) == run_tags(text@, i as int, build_view(st)),
            build_depth(build_view(st)) <= i as int,
        decreases n - i,
    {
        let sc = next_tag_x(text, n, i);
        let ghost stv = build_view(st);
        match sc {
            Scan::End => {
                match st {
                    BuildState::Finished { acc } => {
                        proof {
                            lemma_run_tags_wf(text@, 0, BuildView::Prolog, ifaces_view(acc@));
                        }
                        let d = Document { identifier: String::from_str(identifier), interfaces: acc };
                        proof {
                            assert(d@.interfaces =~= ifaces_view(d.interfaces@));
                        }
                        return Result::Ok(d);
                    },
                    _ => {
                        return Result::Err(
                            StructuralError { document_identifier: String::from_str(identifier) },
                        );
                    },
                }
            },
            Scan::Bad => {
                return Result::Err(
                    StructuralError { document_identifier: String::from_str(identifier) },
                );
            },
            Scan::Tok { tag, next } => {
                let ghost tv = tag_view(tag);
                let stepped = apply_tag(st, tag);
                match stepped {
                    Option::Some(st2) => {
                        proof {
                            assert(run_tags(text@, i as int, stv) == run_tags(
                                text@,
                                next as int,
                                build_view(st2),
                            ));
                            assert(build_depth(build_view(st2)) <= build_depth(stv) + 1);
                        }
                        st = st2;
                        i = next;
                    },
                    Option::None => {
                        return Result::Err(
                            StructuralError { document_identifier: String::from_str(identifier) },
                        );
                    },
                }
            },
        }
    }
}

} // verus!

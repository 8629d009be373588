//! Signal resolution: find the unique signal a hint designates.
//!
//! Every document, interface and signal is scanned in order.  A signal
//! matches either explicitly (the hint names it) or implicitly (the signal's
//! name occurs inside the caller's structure identifier).  An explicit
//! interface name narrows the scan to interfaces of that name without
//! suppressing the uniqueness check.  A second match anywhere is an
//! immediate ambiguity; resolution succeeds only when exactly one signal
//! matched.

use crate::model::{documents_view, Document, DocumentView, Interface, InterfaceView, Signal, SignalView};
use crate::text::{contains_str, is_substring_of};
use vstd::prelude::*;

verus! {

/// The caller-supplied disambiguation input.  `structure_identifier` is the
/// fallback matching key, typically the local structure's name; the two
/// explicit names exist to break ties.
#[derive(Debug)]
pub struct ResolutionHint {
    pub explicit_signal_name: Option<String>,
    pub explicit_interface_name: Option<String>,
    pub structure_identifier: String,
}

pub struct ResolutionHintView {
    pub explicit_signal_name: Option<Seq<char>>,
    pub explicit_interface_name: Option<Seq<char>>,
    pub structure_identifier: Seq<char>,
}

impl View for ResolutionHint {
    type V = ResolutionHintView;

    open spec fn view(&self) -> ResolutionHintView {
        ResolutionHintView {
            explicit_signal_name: match self.explicit_signal_name {
                Option::Some(ref n) => Option::Some(n@),
                Option::None => Option::None,
            },
            explicit_interface_name: match self.explicit_interface_name {
                Option::Some(ref n) => Option::Some(n@),
                Option::None => Option::None,
            },
            structure_identifier: self.structure_identifier@,
        }
    }
}

/// A successful resolution: all three fields are bound together.
#[derive(Debug)]
pub struct ResolvedSignal {
    pub interface_name: String,
    pub signal_name: String,
    pub document_identifier: String,
}

pub struct ResolvedSignalView {
    pub interface_name: Seq<char>,
    pub signal_name: Seq<char>,
    pub document_identifier: Seq<char>,
}

impl View for ResolvedSignal {
    type V = ResolvedSignalView;

    open spec fn view(&self) -> ResolvedSignalView {
        ResolvedSignalView {
            interface_name: self.interface_name@,
            signal_name: self.signal_name@,
            document_identifier: self.document_identifier@,
        }
    }
}

/// A failed resolution.  `Ambiguity` carries both competing bindings; the
/// three not-found kinds carry the search key that found nothing.
/// `NoDocumentFound` is the defensive kind for a binding that cannot be
/// located again in the documents it was resolved from.
#[derive(Debug)]
pub enum ResolutionError {
    Ambiguity { first: ResolvedSignal, second: ResolvedSignal },
    NoInterfaceFound { search_key: String },
    NoSignalFound { search_key: String },
    NoDocumentFound { search_key: String },
}

pub enum ResolutionErrorView {
    Ambiguity { first: ResolvedSignalView, second: ResolvedSignalView },
    NoInterfaceFound { search_key: Seq<char> },
    NoSignalFound { search_key: Seq<char> },
    NoDocumentFound { search_key: Seq<char> },
}

impl View for ResolutionError {
    type V = ResolutionErrorView;

    open spec fn view(&self) -> ResolutionErrorView {
        match self {
            ResolutionError::Ambiguity { first, second } => ResolutionErrorView::Ambiguity {
                first: first@,
                second: second@,
            },
            ResolutionError::NoInterfaceFound { search_key } => {
                ResolutionErrorView::NoInterfaceFound { search_key: search_key@ }
            },
            ResolutionError::NoSignalFound { search_key } => {
                ResolutionErrorView::NoSignalFound { search_key: search_key@ }
            },
            ResolutionError::NoDocumentFound { search_key } => {
                ResolutionErrorView::NoDocumentFound { search_key: search_key@ }
            },
        }
    }
}

/// A signal matches the hint explicitly (the hint names it) or implicitly
/// (its name occurs inside the structure identifier).
pub open spec fn signal_matches(hint: ResolutionHintView, signal_name: Seq<char>) -> bool {
    (match hint.explicit_signal_name {
        Option::Some(n) => n == signal_name,
        Option::None => false,
    }) || is_substring_of(signal_name, hint.structure_identifier)
}

/// An explicit interface name narrows the scan to interfaces of that name.
pub open spec fn interface_admitted(hint: ResolutionHintView, interface_name: Seq<char>) -> bool {
    match hint.explicit_interface_name {
        Option::Some(n) => n == interface_name,
        Option::None => true,
    }
}

pub open spec fn binding_of(
    document_identifier: Seq<char>,
    interface_name: Seq<char>,
    signal_name: Seq<char>,
) -> ResolvedSignalView {
    ResolvedSignalView { interface_name, signal_name, document_identifier }
}

/// The bindings contributed by a run of signals of one interface, in scan
/// order.
pub open spec fn signal_bindings(
    hint: ResolutionHintView,
    document_identifier: Seq<char>,
    interface_name: Seq<char>,
    signals: Seq<SignalView>,
) -> Seq<ResolvedSignalView>
    decreases signals.len(),
{
    if signals.len() == 0 {
        Seq::empty()
    } else {
        signal_bindings(hint, document_identifier, interface_name, signals.drop_last()) + (
        if signal_matches(hint, signals.last().name) {
            seq![binding_of(document_identifier, interface_name, signals.last().name)]
        } else {
            Seq::empty()
        })
    }
}

/// The bindings contributed by a run of interfaces of one document.
pub open spec fn interface_bindings(
    hint: ResolutionHintView,
    document_identifier: Seq<char>,
    interfaces: Seq<InterfaceView>,
) -> Seq<ResolvedSignalView>
    decreases interfaces.len(),
{
    if interfaces.len() == 0 {
        Seq::empty()
    } else {
        interface_bindings(hint, document_identifier, interfaces.drop_last()) + (
        if interface_admitted(hint, interfaces.last().name) {
            signal_bindings(
                hint,
                document_identifier,
                interfaces.last().name,
                interfaces.last().signals,
            )
        } else {
            Seq::empty()
        })
    }
}

/// Every binding of the whole document collection, in scan order.
pub open spec fn document_bindings(
    hint: ResolutionHintView,
    documents: Seq<DocumentView>,
) -> Seq<ResolvedSignalView>
    decreases documents.len(),
{
    if documents.len() == 0 {
        Seq::empty()
    } else {
        document_bindings(hint, documents.drop_last()) + interface_bindings(
            hint,
            documents.last().identifier,
            documents.last().interfaces,
        )
    }
}

/// The identifying string every not-found error carries: the explicit
/// signal name when given, else the structure identifier.
pub open spec fn hint_search_key(hint: ResolutionHintView) -> Seq<char> {
    match hint.explicit_signal_name {
        Option::Some(n) => n,
        Option::None => hint.structure_identifier,
    }
}

/// The error reported when no signal matched: `NoSignalFound` when the hint
/// named a signal or an interface (the binding was asked for and is
/// absent), else `NoInterfaceFound` (nothing bound an interface at all).
pub open spec fn no_match_error(hint: ResolutionHintView) -> ResolutionErrorView {
    if hint.explicit_signal_name is Some || hint.explicit_interface_name is Some {
        ResolutionErrorView::NoSignalFound { search_key: hint_search_key(hint) }
    } else {
        ResolutionErrorView::NoInterfaceFound { search_key: hint_search_key(hint) }
    }
}

/// What `resolve` returns, as a function of the documents and the hint
/// alone: the single binding when exactly one signal matched, the first two
/// competing bindings when more than one did, the not-found error when none
/// did.
pub open spec fn resolve_spec(documents: Seq<DocumentView>, hint: ResolutionHintView) -> Result<
    ResolvedSignalView,
    ResolutionErrorView,
> {
    let bs = document_bindings(hint, documents);
    if bs.len() == 0 {
        Result::Err(no_match_error(hint))
    } else if bs.len() == 1 {
        Result::Ok(bs[0])
    } else {
        Result::Err(ResolutionErrorView::Ambiguity { first: bs[0], second: bs[1] })
    }
}

/// The bindings recorded after scanning documents `0..d` whole, interfaces
/// `0..i` of document `d` whole, and the first `s` signals of interface `i`.
spec fn scan_prefix2(
    hint: ResolutionHintView,
    documents: Seq<DocumentView>,
    d: int,
    i: int,
) -> Seq<ResolvedSignalView> {
    document_bindings(hint, documents.take(d)) + interface_bindings(
        hint,
        documents[d].identifier,
        documents[d].interfaces.take(i),
    )
}

spec fn scan_prefix(
    hint: ResolutionHintView,
    documents: Seq<DocumentView>,
    d: int,
    i: int,
    s: int,
) -> Seq<ResolvedSignalView> {
    scan_prefix2(hint, documents, d, i) + signal_bindings(
        hint,
        documents[d].identifier,
        documents[d].interfaces[i].name,
        documents[d].interfaces[i].signals.take(s),
    )
}

/// The one or zero bindings the signal at position `(d, i, s)` contributes.
spec fn match_contribution(
    hint: ResolutionHintView,
    documents: Seq<DocumentView>,
    d: int,
    i: int,
    s: int,
) -> Seq<ResolvedSignalView> {
    if signal_matches(hint, documents[d].interfaces[i].signals[s].name) {
        seq![
            binding_of(
                documents[d].identifier,
                documents[d].interfaces[i].name,
                documents[d].interfaces[i].signals[s].name,
            ),
        ]
    } else {
        Seq::empty()
    }
}

proof fn lemma_signal_bindings_concat(
    hint: ResolutionHintView,
    document_identifier: Seq<char>,
    interface_name: Seq<char>,
    s1: Seq<SignalView>,
    s2: Seq<SignalView>,
)
    ensures
        signal_bindings(hint, document_identifier, interface_name, s1 + s2) == signal_bindings(
            hint,
            document_identifier,
            interface_name,
            s1,
        ) + signal_bindings(hint, document_identifier, interface_name, s2),
    decreases s2.len(),
{
    if s2.len() == 0 {
        assert(s1 + s2 =~= s1);
        assert(signal_bindings(hint, document_identifier, interface_name, s1) + signal_bindings(
            hint,
            document_identifier,
            interface_name,
            s2,
        ) =~= signal_bindings(hint, document_identifier, interface_name, s1));
    } else {
        lemma_signal_bindings_concat(
            hint,
            document_identifier,
            interface_name,
            s1,
            s2.drop_last(),
        );
        assert((s1 + s2).drop_last() =~= s1 + s2.drop_last());
        assert((s1 + s2).last() == s2.last());
        assert(signal_bindings(hint, document_identifier, interface_name, s1 + s2)
            =~= signal_bindings(hint, document_identifier, interface_name, s1) + signal_bindings(
            hint,
            document_identifier,
            interface_name,
            s2,
        ));
    }
}

proof fn lemma_interface_bindings_concat(
    hint: ResolutionHintView,
    document_identifier: Seq<char>,
    s1: Seq<InterfaceView>,
    s2: Seq<InterfaceView>,
)
    ensures
        interface_bindings(hint, document_identifier, s1 + s2) == interface_bindings(
            hint,
            document_identifier,
            s1,
        ) + interface_bindings(hint, document_identifier, s2),
    decreases s2.len(),
{
    if s2.len() == 0 {
        assert(s1 + s2 =~= s1);
        assert(interface_bindings(hint, document_identifier, s1) + interface_bindings(
            hint,
            document_identifier,
            s2,
        ) =~= interface_bindings(hint, document_identifier, s1));
    } else {
        lemma_interface_bindings_concat(hint, document_identifier, s1, s2.drop_last());
        assert((s1 + s2).drop_last() =~= s1 + s2.drop_last());
        assert((s1 + s2).last() == s2.last());
        assert(interface_bindings(hint, document_identifier, s1 + s2) =~= interface_bindings(
            hint,
            document_identifier,
            s1,
        ) + interface_bindings(hint, document_identifier, s2));
    }
}

proof fn lemma_document_bindings_concat(
    hint: ResolutionHintView,
    s1: Seq<DocumentView>,
    s2: Seq<DocumentView>,
)
    ensures
        document_bindings(hint, s1 + s2) == document_bindings(hint, s1) + document_bindings(
            hint,
            s2,
        ),
    decreases s2.len(),
{
    if s2.len() == 0 {
        assert(s1 + s2 =~= s1);
        assert(document_bindings(hint, s1) + document_bindings(hint, s2) =~= document_bindings(
            hint,
            s1,
        ));
    } else {
        lemma_document_bindings_concat(hint, s1, s2.drop_last());
        assert((s1 + s2).drop_last() =~= s1 + s2.drop_last());
        assert((s1 + s2).last() == s2.last());
        assert(document_bindings(hint, s1 + s2) =~= document_bindings(hint, s1)
            + document_bindings(hint, s2));
    }
}

proof fn lemma_signal_split(
    hint: ResolutionHintView,
    document_identifier: Seq<char>,
    interface_name: Seq<char>,
    signals: Seq<SignalView>,
    s: int,
) -> (suffix: Seq<ResolvedSignalView>)
    requires
        0 <= s < signals.len(),
    ensures
        signal_bindings(hint, document_identifier, interface_name, signals) == signal_bindings(
            hint,
            document_identifier,
            interface_name,
            signals.take(s),
        ) + (if signal_matches(hint, signals[s].name) {
            seq![binding_of(document_identifier, interface_name, signals[s].name)]
        } else {
            Seq::<ResolvedSignalView>::empty()
        }) + suffix,
{
    let one = seq![signals[s]];
    assert(signals =~= (signals.take(s) + one) + signals.skip(s + 1));
    lemma_signal_bindings_concat(
        hint,
        document_identifier,
        interface_name,
        signals.take(s) + one,
        signals.skip(s + 1),
    );
    lemma_signal_bindings_concat(hint, document_identifier, interface_name, signals.take(s), one);
    assert(one.drop_last() =~= Seq::<SignalView>::empty());
    assert(one.last() == signals[s]);
    assert(signal_bindings(hint, document_identifier, interface_name, Seq::<SignalView>::empty())
        =~= Seq::<ResolvedSignalView>::empty());
    let hit = if signal_matches(hint, signals[s].name) {
        seq![binding_of(document_identifier, interface_name, signals[s].name)]
    } else {
        Seq::<ResolvedSignalView>::empty()
    };
    assert(signal_bindings(hint, document_identifier, interface_name, one) =~= hit);
    let suffix = signal_bindings(
        hint,
        document_identifier,
        interface_name,
        signals.skip(s + 1),
    );
    assert(signal_bindings(hint, document_identifier, interface_name, signals) =~= signal_bindings(
        hint,
        document_identifier,
        interface_name,
        signals.take(s),
    ) + hit + suffix);
    suffix
}

proof fn lemma_interface_split(
    hint: ResolutionHintView,
    document_identifier: Seq<char>,
    interfaces: Seq<InterfaceView>,
    i: int,
    s: int,
) -> (suffix: Seq<ResolvedSignalView>)
    requires
        0 <= i < interfaces.len(),
        0 <= s < interfaces[i].signals.len(),
        interface_admitted(hint, interfaces[i].name),
    ensures
        interface_bindings(hint, document_identifier, interfaces) == interface_bindings(
            hint,
            document_identifier,
            interfaces.take(i),
        ) + signal_bindings(
            hint,
            document_identifier,
            interfaces[i].name,
            interfaces[i].signals.take(s),
        ) + (if signal_matches(hint, interfaces[i].signals[s].name) {
            seq![
                binding_of(document_identifier, interfaces[i].name, interfaces[i].signals[s].name),
            ]
        } else {
            Seq::<ResolvedSignalView>::empty()
        }) + suffix,
{
    let one = seq![interfaces[i]];
    assert(interfaces =~= (interfaces.take(i) + one) + interfaces.skip(i + 1));
    lemma_interface_bindings_concat(
        hint,
        document_identifier,
        interfaces.take(i) + one,
        interfaces.skip(i + 1),
    );
    lemma_interface_bindings_concat(hint, document_identifier, interfaces.take(i), one);
    assert(one.drop_last() =~= Seq::<InterfaceView>::empty());
    assert(one.last() == interfaces[i]);
    assert(interface_bindings(hint, document_identifier, Seq::<InterfaceView>::empty())
        =~= Seq::<ResolvedSignalView>::empty());
    assert(interface_bindings(hint, document_identifier, one) =~= signal_bindings(
        hint,
        document_identifier,
        interfaces[i].name,
        interfaces[i].signals,
    ));
    let inner = lemma_signal_split(
        hint,
        document_identifier,
        interfaces[i].name,
        interfaces[i].signals,
        s,
    );
    let hit = if signal_matches(hint, interfaces[i].signals[s].name) {
        seq![binding_of(document_identifier, interfaces[i].name, interfaces[i].signals[s].name)]
    } else {
        Seq::<ResolvedSignalView>::empty()
    };
    let suffix = inner + interface_bindings(hint, document_identifier, interfaces.skip(i + 1));
    assert(interface_bindings(hint, document_identifier, interfaces) =~= interface_bindings(
        hint,
        document_identifier,
        interfaces.take(i),
    ) + signal_bindings(
        hint,
        document_identifier,
        interfaces[i].name,
        interfaces[i].signals.take(s),
    ) + hit + suffix);
    suffix
}

proof fn lemma_document_split(
    hint: ResolutionHintView,
    documents: Seq<DocumentView>,
    d: int,
    i: int,
    s: int,
) -> (suffix: Seq<ResolvedSignalView>)
    requires
        0 <= d < documents.len(),
        0 <= i < documents[d].interfaces.len(),
        0 <= s < documents[d].interfaces[i].signals.len(),
        interface_admitted(hint, documents[d].interfaces[i].name),
    ensures
        document_bindings(hint, documents) == scan_prefix(hint, documents, d, i, s)
            + match_contribution(hint, documents, d, i, s) + suffix,
{
    let one = seq![documents[d]];
    assert(documents =~= (documents.take(d) + one) + documents.skip(d + 1));
    lemma_document_bindings_concat(hint, documents.take(d) + one, documents.skip(d + 1));
    lemma_document_bindings_concat(hint, documents.take(d), one);
    assert(one.drop_last() =~= Seq::<DocumentView>::empty());
    assert(one.last() == documents[d]);
    assert(document_bindings(hint, Seq::<DocumentView>::empty())
        =~= Seq::<ResolvedSignalView>::empty());
    assert(document_bindings(hint, one) =~= interface_bindings(
        hint,
        documents[d].identifier,
        documents[d].interfaces,
    ));
    let inner = lemma_interface_split(hint, documents[d].identifier, documents[d].interfaces, i, s);
    let suffix = inner + document_bindings(hint, documents.skip(d + 1));
    assert(document_bindings(hint, documents) =~= scan_prefix(hint, documents, d, i, s)
        + match_contribution(hint, documents, d, i, s) + suffix);
    suffix
}

/// Resolution is deterministic: its outcome is a function of the documents
/// and the hint alone, so two results that both satisfy `resolve`'s
/// postcondition on the same inputs are the same outcome.
pub proof fn lemma_resolve_deterministic(
    documents: Seq<DocumentView>,
    hint: ResolutionHintView,
    r1: Result<ResolvedSignalView, ResolutionErrorView>,
    r2: Result<ResolvedSignalView, ResolutionErrorView>,
)
    requires
        r1 == resolve_spec(documents, hint),
        r2 == resolve_spec(documents, hint),
    ensures
        r1 == r2,
{
}

proof fn lemma_double_match_ordered(
    documents: Seq<DocumentView>,
    hint: ResolutionHintView,
    d1: int,
    i1: int,
    s1: int,
    d2: int,
    i2: int,
    s2: int,
)
    requires
        0 <= d1 < documents.len(),
        0 <= i1 < documents[d1].interfaces.len(),
        0 <= s1 < documents[d1].interfaces[i1].signals.len(),
        0 <= d2 < documents.len(),
        0 <= i2 < documents[d2].interfaces.len(),
        0 <= s2 < documents[d2].interfaces[i2].signals.len(),
        interface_admitted(hint, documents[d1].interfaces[i1].name),
        interface_admitted(hint, documents[d2].interfaces[i2].name),
        signal_matches(hint, documents[d1].interfaces[i1].signals[s1].name),
        signal_matches(hint, documents[d2].interfaces[i2].signals[s2].name),
        d1 < d2 || (d1 == d2 && i1 < i2) || (d1 == d2 && i1 == i2 && s1 < s2),
    ensures
        document_bindings(hint, documents).len() >= 2,
{
    let _tail = lemma_document_split(hint, documents, d2, i2, s2);
    if d1 < d2 {
        let shorter = documents.take(d2);
        assert(shorter[d1] == documents[d1]);
        let _t = lemma_document_split(hint, shorter, d1, i1, s1);
        assert(match_contribution(hint, shorter, d1, i1, s1).len() == 1);
        assert(document_bindings(hint, shorter).len() >= 1);
    } else if i1 < i2 {
        let shorter = documents[d2].interfaces.take(i2);
        assert(shorter[i1] == documents[d1].interfaces[i1]);
        let _t = lemma_interface_split(hint, documents[d2].identifier, shorter, i1, s1);
        assert(interface_bindings(hint, documents[d2].identifier, shorter).len() >= 1);
    } else {
        let shorter = documents[d2].interfaces[i2].signals.take(s2);
        assert(shorter[s1] == documents[d1].interfaces[i1].signals[s1]);
        let _t = lemma_signal_split(
            hint,
            documents[d2].identifier,
            documents[d2].interfaces[i2].name,
            shorter,
            s1,
        );
        assert(signal_bindings(
            hint,
            documents[d2].identifier,
            documents[d2].interfaces[i2].name,
            shorter,
        ).len() >= 1);
    }
    assert(match_contribution(hint, documents, d2, i2, s2).len() == 1);
}

spec fn recorded(found: Option<ResolvedSignal>, bs: Seq<ResolvedSignalView>) -> bool {
    match found {
        Option::Some(f) => bs == seq![f@],
        Option::None => bs == Seq::<ResolvedSignalView>::empty(),
    }
}

fn opt_name_matches(opt: &Option<String>, name: &String, when_none: bool) -> (b: bool)
    ensures
        b == (match *opt {
            Option::Some(n) => n@ == name@,
            Option::None => when_none,
        }),
{
    match opt {
        Option::Some(n) => *n == *name,
        Option::None => when_none,
    }
}

/// Scans every signal of every interface of every document, in order, for a
/// match with the hint.  Returns the unique match; the first two competing
/// bindings when two signals match; the not-found error when none does.
#[verifier::loop_isolation(false)]
pub fn resolve(documents: &Vec<Document>, hint: &ResolutionHint) -> (r: Result<
    ResolvedSignal,
    ResolutionError,
>)
    ensures
        (match r {
            Result::Ok(rs) => resolve_spec(documents_view(documents@), hint@) == Result::<
                ResolvedSignalView,
                ResolutionErrorView,
            >::Ok(rs@),
            Result::Err(e) => resolve_spec(documents_view(documents@), hint@) == Result::<
                ResolvedSignalView,
                ResolutionErrorView,
            >::Err(e@),
        }),
{
    let ghost docs = documents_view(documents@);
    let ghost h = hint@;
    let mut found: Option<ResolvedSignal> = Option::None;
    let nd = documents.len();
    let mut d: usize = 0;
    proof {
        assert(docs.take(0) =~= Seq::<DocumentView>::empty());
        assert(document_bindings(h, Seq::<DocumentView>::empty())
            =~= Seq::<ResolvedSignalView>::empty());
    }
    while d < nd
        invariant
            d <= nd,
            recorded(found, document_bindings(h, docs.take(d as int))),
        decreases nd - d,
    {
        let doc = &documents[d];
        let ghost docv = docs[d as int];
        proof {
            assert(docv == doc@);
            assert(docv.interfaces.take(0) =~= Seq::<InterfaceView>::empty());
            assert(interface_bindings(h, docv.identifier, Seq::<InterfaceView>::empty())
                =~= Seq::<ResolvedSignalView>::empty());
            assert(scan_prefix2(h, docs, d as int, 0) =~= document_bindings(
                h,
                docs.take(d as int),
            ));
        }
        let ni = doc.interfaces.len();
        let mut i: usize = 0;
        while i < ni
            invariant
                i <= ni,
                recorded(found, scan_prefix2(h, docs, d as int, i as int)),
            decreases ni - i,
        {
            let iface = &doc.interfaces[i];
            let ghost ifv = docv.interfaces[i as int];
            proof {
                assert(ifv == iface@);
            }
            let admitted = opt_name_matches(&hint.explicit_interface_name, &iface.name, true);
            proof {
                assert(admitted == interface_admitted(h, ifv.name));
            }
            if admitted {
                let ns = iface.signals.len();
                let mut s: usize = 0;
                proof {
                    assert(ifv.signals.take(0) =~= Seq::<SignalView>::empty());
                    assert(signal_bindings(
                        h,
                        docv.identifier,
                        ifv.name,
                        Seq::<SignalView>::empty(),
                    ) =~= Seq::<ResolvedSignalView>::empty());
                    assert(scan_prefix(h, docs, d as int, i as int, 0) =~= scan_prefix2(
                        h,
                        docs,
                        d as int,
                        i as int,
                    ));
                }
                while s < ns
                    invariant
                        s <= ns,
                        recorded(found, scan_prefix(h, docs, d as int, i as int, s as int)),
                    decreases ns - s,
                {
                    let sig = &iface.signals[s];
                    let ghost sgv = ifv.signals[s as int];
                    proof {
                        assert(sgv == sig@);
                    }
                    let explicit_hit = opt_name_matches(&hint.explicit_signal_name, &sig.name, false);
                    let is_match = explicit_hit || contains_str(
                        hint.structure_identifier.as_str(),
                        sig.name.as_str(),
                    );
                    proof {
                        assert(is_match == signal_matches(h, sgv.name));
                    }
                    if is_match {
                        let b = ResolvedSignal {
                            interface_name: iface.name.clone(),
                            signal_name: sig.name.clone(),
                            document_identifier: doc.identifier.clone(),
                        };
                        let ghost bv = b@;
                        proof {
                            assert(bv == binding_of(docv.identifier, ifv.name, sgv.name));
                        }
                        if found.is_some() {
                            let f = found.unwrap();
                            proof {
                                let _tail = lemma_document_split(
                                    h,
                                    docs,
                                    d as int,
                                    i as int,
                                    s as int,
                                );
                                let bs = document_bindings(h, docs);
                                let pre = scan_prefix(h, docs, d as int, i as int, s as int);
                                let hit = match_contribution(h, docs, d as int, i as int, s as int);
                                assert(hit =~= seq![bv]);
                                assert(pre == seq![f@]);
                                assert(bs[0] == f@);
                                assert(bs[1] == bv);
                                assert(bs.len() >= 2);
                            }
                            return Result::Err(
                                ResolutionError::Ambiguity { first: f, second: b },
                            );
                        } else {
                            found = Option::Some(b);
                        }
                    }
                    proof {
                        let sigs = ifv.signals;
                        assert(sigs.take(s + 1).drop_last() =~= sigs.take(s as int));
                        assert(sigs.take(s + 1).last() == sigs[s as int]);
                        let step = if signal_matches(h, sgv.name) {
                            seq![binding_of(docv.identifier, ifv.name, sgv.name)]
                        } else {
                            Seq::<ResolvedSignalView>::empty()
                        };
                        assert(scan_prefix(h, docs, d as int, i as int, s + 1) =~= scan_prefix(
                            h,
                            docs,
                            d as int,
                            i as int,
                            s as int,
                        ) + step);
                        match &found {
                            Option::Some(f) => {
                                assert(scan_prefix(h, docs, d as int, i as int, s as int) + step
                                    =~= seq![f@]);
                            },
                            Option::None => {
                                assert(scan_prefix(h, docs, d as int, i as int, s as int) + step
                                    =~= Seq::<ResolvedSignalView>::empty());
                            },
                        }
                    }
                    s = s + 1;
                }
                proof {
                    assert(ifv.signals.take(ns as int) =~= ifv.signals);
                }
            }
            proof {
                let ifs = docv.interfaces;
                assert(ifs.take(i + 1).drop_last() =~= ifs.take(i as int));
                assert(ifs.take(i + 1).last() == ifs[i as int]);
                let step = if interface_admitted(h, ifv.name) {
                    signal_bindings(h, docv.identifier, ifv.name, ifv.signals)
                } else {
                    Seq::<ResolvedSignalView>::empty()
                };
                assert(scan_prefix2(h, docs, d as int, i + 1) =~= scan_prefix2(
                    h,
                    docs,
                    d as int,
                    i as int,
                ) + step);
                match &found {
                    Option::Some(f) => {
                        assert(scan_prefix2(h, docs, d as int, i as int) + step =~= seq![f@]);
                    },
                    Option::None => {
                        assert(scan_prefix2(h, docs, d as int, i as int) + step
                            =~= Seq::<ResolvedSignalView>::empty());
                    },
                }
            }
            i = i + 1;
        }
        proof {
            assert(docv.interfaces.take(ni as int) =~= docv.interfaces);
            assert(docs.take(d + 1).drop_last() =~= docs.take(d as int));
            assert(docs.take(d + 1).last() == docs[d as int]);
            assert(document_bindings(h, docs.take(d + 1)) =~= document_bindings(
                h,
                docs.take(d as int),
            ) + interface_bindings(h, docv.identifier, docv.interfaces));
            match &found {
                Option::Some(f) => {
                    assert(document_bindings(h, docs.take(d + 1)) =~= seq![f@]);
                },
                Option::None => {
                    assert(document_bindings(h, docs.take(d + 1))
                        =~= Seq::<ResolvedSignalView>::empty());
                },
            }
        }
        d = d + 1;
    }
    proof {
        assert(docs.take(nd as int) =~= docs);
    }
    match found {
        Option::Some(f) => {
            proof {
                assert(document_bindings(h, docs)[0] == f@);
            }
            Result::Ok(f)
        },
        Option::None => {
            match &hint.explicit_signal_name {
                Option::Some(n) => Result::Err(
                    ResolutionError::NoSignalFound { search_key: n.clone() },
                ),
                Option::None => {
                    match &hint.explicit_interface_name {
                        Option::Some(_) => Result::Err(
                            ResolutionError::NoSignalFound {
                                search_key: hint.structure_identifier.clone(),
                            },
                        ),
                        Option::None => Result::Err(
                            ResolutionError::NoInterfaceFound {
                                search_key: hint.structure_identifier.clone(),
                            },
                        ),
                    }
                },
            }
        },
    }
}

/// The uniqueness invariant: whenever two distinct signal positions across
/// the document set both match the hint (within an admitted interface),
/// resolution fails with an ambiguity error; it never silently picks one.
pub proof fn lemma_double_match_is_ambiguous(
    documents: Seq<DocumentView>,
    hint: ResolutionHintView,
    d1: int,
    i1: int,
    s1: int,
    d2: int,
    i2: int,
    s2: int,
)
    requires
        0 <= d1 < documents.len(),
        0 <= i1 < documents[d1].interfaces.len(),
        0 <= s1 < documents[d1].interfaces[i1].signals.len(),
        0 <= d2 < documents.len(),
        0 <= i2 < documents[d2].interfaces.len(),
        0 <= s2 < documents[d2].interfaces[i2].signals.len(),
        interface_admitted(hint, documents[d1].interfaces[i1].name),
        interface_admitted(hint, documents[d2].interfaces[i2].name),
        signal_matches(hint, documents[d1].interfaces[i1].signals[s1].name),
        signal_matches(hint, documents[d2].interfaces[i2].signals[s2].name),
        !(d1 == d2 && i1 == i2 && s1 == s2),
    ensures
        resolve_spec(documents, hint) matches Result::Err(
            ResolutionErrorView::Ambiguity { first: _, second: _ },
        ),
{
    if d1 < d2 || (d1 == d2 && i1 < i2) || (d1 == d2 && i1 == i2 && s1 < s2) {
        lemma_double_match_ordered(documents, hint, d1, i1, s1, d2, i2, s2);
    } else {
        lemma_double_match_ordered(documents, hint, d2, i2, s2, d1, i1, s1);
    }
}

/// The first signal of `signals` that bears `name`.
pub open spec fn find_in_signals(signals: Seq<SignalView>, name: Seq<char>) -> Option<SignalView>
    decreases signals.len(),
{
    if signals.len() == 0 {
        Option::None
    } else if signals.first().name == name {
        Option::Some(signals.first())
    } else {
        find_in_signals(signals.drop_first(), name)
    }
}

/// The first signal named `signal_name` inside an interface named
/// `interface_name`, scanning interfaces in order.
pub open spec fn find_in_interfaces(
    interfaces: Seq<InterfaceView>,
    interface_name: Seq<char>,
    signal_name: Seq<char>,
) -> Option<SignalView>
    decreases interfaces.len(),
{
    if interfaces.len() == 0 {
        Option::None
    } else if interfaces.first().name == interface_name && find_in_signals(
        interfaces.first().signals,
        signal_name,
    ) is Some {
        find_in_signals(interfaces.first().signals, signal_name)
    } else {
        find_in_interfaces(interfaces.drop_first(), interface_name, signal_name)
    }
}

/// The first signal a resolved binding denotes, scanning documents in
/// order.
pub open spec fn find_in_documents(
    documents: Seq<DocumentView>,
    resolved: ResolvedSignalView,
) -> Option<SignalView>
    decreases documents.len(),
{
    if documents.len() == 0 {
        Option::None
    } else if documents.first().identifier == resolved.document_identifier && find_in_interfaces(
        documents.first().interfaces,
        resolved.interface_name,
        resolved.signal_name,
    ) is Some {
        find_in_interfaces(
            documents.first().interfaces,
            resolved.interface_name,
            resolved.signal_name,
        )
    } else {
        find_in_documents(documents.drop_first(), resolved)
    }
}

#[verifier::loop_isolation(false)]
fn find_signal_in_interface<'a>(interface: &'a Interface, signal_name: &String) -> (o: Option<
    &'a Signal,
>)
    ensures
        (match o {
            Option::Some(sig) => find_in_signals(interface@.signals, signal_name@)
                == Option::Some(sig@),
            Option::None => find_in_signals(interface@.signals, signal_name@) is None,
        }),
{
    let ghost sigs = interface@.signals;
    let ns = interface.signals.len();
    let mut s: usize = 0;
    proof {
        assert(sigs.skip(0) =~= sigs);
    }
    while s < ns
        invariant
            ns == interface.signals.len(),
            sigs == interface@.signals,
            s <= ns,
            find_in_signals(sigs, signal_name@) == find_in_signals(
                sigs.skip(s as int),
                signal_name@,
            ),
        decreases ns - s,
    {
        let sig = &interface.signals[s];
        proof {
            assert(sigs.skip(s as int).first() == sigs[s as int]);
            assert(sigs.skip(s as int).drop_first() =~= sigs.skip(s + 1));
            assert(sigs[s as int] == sig@);
        }
        if sig.name == *signal_name {
            return Option::Some(sig);
        }
        s = s + 1;
    }
    proof {
        assert(sigs.skip(ns as int) =~= Seq::<SignalView>::empty());
    }
    Option::None
}

/// Finds the signal a resolved binding denotes: the first signal with the
/// bound name inside an interface with the bound name inside the document
/// with the bound identifier.
#[verifier::loop_isolation(false)]
pub fn find_signal<'a>(documents: &'a Vec<Document>, resolved: &ResolvedSignal) -> (o: Option<
    &'a Signal,
>)
    ensures
        (match o {
            Option::Some(sig) => find_in_documents(documents_view(documents@), resolved@)
                == Option::<SignalView>::Some(sig@),
            Option::None => find_in_documents(documents_view(documents@), resolved@) is None,
        }),
{
    let ghost docs = documents_view(documents@);
    let nd = documents.len();
    let mut d: usize = 0;
    proof {
        assert(docs.skip(0) =~= docs);
    }
    while d < nd
        invariant
            nd == documents.len(),
            docs == documents_view(documents@),
            docs.len() == nd,
            d <= nd,
            find_in_documents(docs, resolved@) == find_in_documents(
                docs.skip(d as int),
                resolved@,
            ),
        decreases nd - d,
    {
        let doc = &documents[d];
        let ghost docv = docs[d as int];
        proof {
            assert(docs.skip(d as int).first() == docs[d as int]);
            assert(docs.skip(d as int).drop_first() =~= docs.skip(d + 1));
            assert(docv == doc@);
        }
        if doc.identifier == resolved.document_identifier {
            let ni = doc.interfaces.len();
            let mut i: usize = 0;
            proof {
                assert(docv.interfaces.skip(0) =~= docv.interfaces);
            }
            while i < ni
                invariant
                    nd == documents.len(),
                    docs == documents_view(documents@),
                    docs.len() == nd,
                    d < nd,
                    docv == docs[d as int],
                    docv == doc@,
                    ni == doc.interfaces.len(),
                    i <= ni,
                    find_in_interfaces(
                        docv.interfaces,
                        resolved@.interface_name,
                        resolved@.signal_name,
                    ) == find_in_interfaces(
                        docv.interfaces.skip(i as int),
                        resolved@.interface_name,
                        resolved@.signal_name,
                    ),
                decreases ni - i,
            {
                let iface = &doc.interfaces[i];
                let ghost ifs = docv.interfaces;
                proof {
                    assert(ifs.skip(i as int).first() == ifs[i as int]);
                    assert(ifs.skip(i as int).drop_first() =~= ifs.skip(i + 1));
                    assert(ifs[i as int] == iface@);
                }
                if iface.name == resolved.interface_name {
                    let hit = find_signal_in_interface(iface, &resolved.signal_name);
                    match hit {
                        Option::Some(sig) => {
                            proof {
                                assert(find_in_interfaces(
                                    docv.interfaces.skip(i as int),
                                    resolved@.interface_name,
                                    resolved@.signal_name,
                                ) == Option::<SignalView>::Some(sig@));
                                assert(find_in_documents(docs.skip(d as int), resolved@)
                                    == Option::<SignalView>::Some(sig@));
                            }
                            return Option::Some(sig);
                        },
                        Option::None => {},
                    }
                }
                i = i + 1;
            }
            proof {
                assert(docv.interfaces.skip(ni as int) =~= Seq::<InterfaceView>::empty());
            }
        }
        d = d + 1;
    }
    proof {
        assert(docs.skip(nd as int) =~= Seq::<DocumentView>::empty());
    }
    Option::None
}

proof fn lemma_find_in_signals_some(signals: Seq<SignalView>, name: Seq<char>, s: int)
    requires
        0 <= s < signals.len(),
        signals[s].name == name,
    ensures
        find_in_signals(signals, name) is Some,
    decreases signals.len(),
{
    if signals.first().name != name {
        assert(s != 0);
        assert(signals.drop_first()[s - 1] == signals[s]);
        lemma_find_in_signals_some(signals.drop_first(), name, s - 1);
    }
}

proof fn lemma_find_in_interfaces_some(
    interfaces: Seq<InterfaceView>,
    interface_name: Seq<char>,
    signal_name: Seq<char>,
    i: int,
    s: int,
)
    requires
        0 <= i < interfaces.len(),
        0 <= s < interfaces[i].signals.len(),
        interfaces[i].name == interface_name,
        interfaces[i].signals[s].name == signal_name,
    ensures
        find_in_interfaces(interfaces, interface_name, signal_name) is Some,
    decreases interfaces.len(),
{
    if interfaces.first().name == interface_name && find_in_signals(
        interfaces.first().signals,
        signal_name,
    ) is Some {
    } else {
        if i == 0 {
            lemma_find_in_signals_some(interfaces[0].signals, signal_name, s);
            assert(false);
        } else {
            assert(interfaces.drop_first()[i - 1] == interfaces[i]);
            lemma_find_in_interfaces_some(
                interfaces.drop_first(),
                interface_name,
                signal_name,
                i - 1,
                s,
            );
        }
    }
}

proof fn lemma_find_in_documents_some(
    documents: Seq<DocumentView>,
    resolved: ResolvedSignalView,
    d: int,
    i: int,
    s: int,
)
    requires
        0 <= d < documents.len(),
        0 <= i < documents[d].interfaces.len(),
        0 <= s < documents[d].interfaces[i].signals.len(),
        documents[d].identifier == resolved.document_identifier,
        documents[d].interfaces[i].name == resolved.interface_name,
        documents[d].interfaces[i].signals[s].name == resolved.signal_name,
    ensures
        find_in_documents(documents, resolved) is Some,
    decreases documents.len(),
{
    if documents.first().identifier == resolved.document_identifier && find_in_interfaces(
        documents.first().interfaces,
        resolved.interface_name,
        resolved.signal_name,
    ) is Some {
    } else {
        if d == 0 {
            lemma_find_in_interfaces_some(
                documents[0].interfaces,
                resolved.interface_name,
                resolved.signal_name,
                i,
                s,
            );
            assert(false);
        } else {
            assert(documents.drop_first()[d - 1] == documents[d]);
            lemma_find_in_documents_some(documents.drop_first(), resolved, d - 1, i, s);
        }
    }
}

proof fn lemma_signal_binding_origin(
    hint: ResolutionHintView,
    document_identifier: Seq<char>,
    interface_name: Seq<char>,
    signals: Seq<SignalView>,
    k: int,
) -> (s: int)
    requires
        0 <= k < signal_bindings(hint, document_identifier, interface_name, signals).len(),
    ensures
        0 <= s < signals.len(),
        signal_bindings(hint, document_identifier, interface_name, signals)[k] == binding_of(
            document_identifier,
            interface_name,
            signals[s].name,
        ),
    decreases signals.len(),
{
    let bs = signal_bindings(hint, document_identifier, interface_name, signals);
    let pre = signal_bindings(hint, document_identifier, interface_name, signals.drop_last());
    if k < pre.len() {
        let s0 = lemma_signal_binding_origin(
            hint,
            document_identifier,
            interface_name,
            signals.drop_last(),
            k,
        );
        assert(signals.drop_last()[s0] == signals[s0]);
        assert(bs[k] == pre[k]);
        s0
    } else {
        assert(bs[k] == binding_of(document_identifier, interface_name, signals.last().name));
        signals.len() - 1
    }
}

proof fn lemma_interface_binding_origin(
    hint: ResolutionHintView,
    document_identifier: Seq<char>,
    interfaces: Seq<InterfaceView>,
    k: int,
) -> (r: (int, int))
    requires
        0 <= k < interface_bindings(hint, document_identifier, interfaces).len(),
    ensures
        0 <= r.0 < interfaces.len(),
        0 <= r.1 < interfaces[r.0].signals.len(),
        interface_bindings(hint, document_identifier, interfaces)[k] == binding_of(
            document_identifier,
            interfaces[r.0].name,
            interfaces[r.0].signals[r.1].name,
        ),
    decreases interfaces.len(),
{
    let bs = interface_bindings(hint, document_identifier, interfaces);
    let pre = interface_bindings(hint, document_identifier, interfaces.drop_last());
    if k < pre.len() {
        let r0 = lemma_interface_binding_origin(
            hint,
            document_identifier,
            interfaces.drop_last(),
            k,
        );
        assert(interfaces.drop_last()[r0.0] == interfaces[r0.0]);
        assert(bs[k] == pre[k]);
        r0
    } else {
        let tail = signal_bindings(
            hint,
            document_identifier,
            interfaces.last().name,
            interfaces.last().signals,
        );
        assert(bs[k] == tail[k - pre.len()]);
        let s0 = lemma_signal_binding_origin(
            hint,
            document_identifier,
            interfaces.last().name,
            interfaces.last().signals,
            k - pre.len(),
        );
        (interfaces.len() - 1, s0)
    }
}

proof fn lemma_document_binding_origin(
    hint: ResolutionHintView,
    documents: Seq<DocumentView>,
    k: int,
) -> (r: (int, int, int))
    requires
        0 <= k < document_bindings(hint, documents).len(),
    ensures
        0 <= r.0 < documents.len(),
        0 <= r.1 < documents[r.0].interfaces.len(),
        0 <= r.2 < documents[r.0].interfaces[r.1].signals.len(),
        document_bindings(hint, documents)[k] == binding_of(
            documents[r.0].identifier,
            documents[r.0].interfaces[r.1].name,
            documents[r.0].interfaces[r.1].signals[r.2].name,
        ),
    decreases documents.len(),
{
    let bs = document_bindings(hint, documents);
    let pre = document_bindings(hint, documents.drop_last());
    if k < pre.len() {
        let r0 = lemma_document_binding_origin(hint, documents.drop_last(), k);
        assert(documents.drop_last()[r0.0] == documents[r0.0]);
        assert(bs[k] == pre[k]);
        r0
    } else {
        let tail = interface_bindings(
            hint,
            documents.last().identifier,
            documents.last().interfaces,
        );
        assert(bs[k] == tail[k - pre.len()]);
        let r0 = lemma_interface_binding_origin(
            hint,
            documents.last().identifier,
            documents.last().interfaces,
            k - pre.len(),
        );
        (documents.len() - 1, r0.0, r0.1)
    }
}

/// A successful resolution denotes a signal that is present in the
/// documents it was resolved from: looking the binding up again always
/// finds a signal, so the defensive `NoDocumentFound` outcome cannot arise
/// from a binding this resolver produced.
pub proof fn lemma_resolved_signal_found(
    documents: Seq<DocumentView>,
    hint: ResolutionHintView,
    resolved: ResolvedSignalView,
)
    requires
        resolve_spec(documents, hint) == Result::<ResolvedSignalView, ResolutionErrorView>::Ok(
            resolved,
        ),
    ensures
        find_in_documents(documents, resolved) is Some,
{
    let r = lemma_document_binding_origin(hint, documents, 0);
    lemma_find_in_documents_some(documents, resolved, r.0, r.1, r.2);
}

} // verus!

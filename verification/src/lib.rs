//! Build-time lockstep validation for typed message-protocol signals.
//!
//! Given a set of interface-description documents and an identifying hint,
//! the library locates the unique signal the hint designates, projects the
//! signal's parameter list into a composite wire-type signature, and compares
//! that signature structurally against the signature derived from a local
//! data structure.  Every stage is a pure, verified computation: parsing the
//! documents, resolving the hint, extracting the signature, and comparing it.

use vstd::prelude::*;

pub mod config;
pub mod grammar;
pub mod model;
pub mod parse;
pub mod resolve;
pub mod signature;
pub mod text;

use crate::model::{documents_view, Document, DocumentView};
use crate::parse::{parse, parse_spec, StructuralError, StructuralErrorView};
use crate::resolve::{find_in_documents, find_signal, hint_search_key, resolve, resolve_spec,
    ResolutionError, ResolutionErrorView, ResolutionHint, ResolutionHintView, ResolvedSignal,
    ResolvedSignalView};
use crate::signature::{compare, extract, normalize_spec, params_signature, MismatchError,
    MismatchErrorView};

verus! {

/// A failed validation run: the document that did not parse, the hint that
/// resolved to no signal or to more than one, or the two signatures that
/// differ.
#[derive(Debug)]
pub enum ValidationError {
    Structure(StructuralError),
    Resolution(ResolutionError),
    Mismatch(MismatchError),
}

pub enum ValidationErrorView {
    Structure(StructuralErrorView),
    Resolution(ResolutionErrorView),
    Mismatch(MismatchErrorView),
}

impl View for ValidationError {
    type V = ValidationErrorView;

    open spec fn view(&self) -> ValidationErrorView {
        match self {
            ValidationError::Structure(e) => ValidationErrorView::Structure(e@),
            ValidationError::Resolution(e) => ValidationErrorView::Resolution(e@),
            ValidationError::Mismatch(e) => ValidationErrorView::Mismatch(e@),
        }
    }
}

/// What `validate` returns on parsed documents: resolve the hint, look the
/// resolved signal up again, extract its signature and compare it with the
/// locally derived one.  The defensive `NoDocumentFound` covers a binding
/// that cannot be located again.
pub open spec fn validate_spec(
    documents: Seq<DocumentView>,
    hint: ResolutionHintView,
    actual: Seq<char>,
) -> Result<ResolvedSignalView, ValidationErrorView> {
    match resolve_spec(documents, hint) {
        Result::Err(e) => Result::Err(ValidationErrorView::Resolution(e)),
        Result::Ok(rs) => match find_in_documents(documents, rs) {
            Option::None => Result::Err(
                ValidationErrorView::Resolution(
                    ResolutionErrorView::NoDocumentFound { search_key: hint_search_key(hint) },
                ),
            ),
            Option::Some(sig) => {
                if normalize_spec(params_signature(sig.parameters)) == normalize_spec(actual) {
                    Result::Ok(rs)
                } else {
                    Result::Err(
                        ValidationErrorView::Mismatch(
                            MismatchErrorView {
                                expected: params_signature(sig.parameters),
                                actual,
                            },
                        ),
                    )
                }
            },
        },
    }
}

/// Validates a locally derived signature against the signal the hint
/// designates among already-parsed documents.  On success the resolved
/// binding is returned for provenance.
pub fn validate(
    documents: &Vec<Document>,
    hint: &ResolutionHint,
    actual_signature: &str,
) -> (r: Result<ResolvedSignal, ValidationError>)
    ensures
        (match r {
            Result::Ok(rs) => validate_spec(documents_view(documents@), hint@, actual_signature@)
                == Result::<ResolvedSignalView, ValidationErrorView>::Ok(rs@),
            Result::Err(e) => validate_spec(documents_view(documents@), hint@, actual_signature@)
                == Result::<ResolvedSignalView, ValidationErrorView>::Err(e@),
        }),
{
    let resolved = resolve(documents, hint);
    match resolved {
        Result::Err(e) => Result::Err(ValidationError::Resolution(e)),
        Result::Ok(rs) => {
            match find_signal(documents, &rs) {
                Option::None => {
                    let key = match &hint.explicit_signal_name {
                        Option::Some(n) => n.clone(),
                        Option::None => hint.structure_identifier.clone(),
                    };
                    Result::Err(
                        ValidationError::Resolution(
                            ResolutionError::NoDocumentFound { search_key: key },
                        ),
                    )
                },
                Option::Some(sig) => {
                    let expected = extract(sig);
                    match compare(expected.as_str(), actual_signature) {
                        Result::Ok(_) => Result::Ok(rs),
                        Result::Err(m) => Result::Err(ValidationError::Mismatch(m)),
                    }
                },
            }
        },
    }
}

/// Parses every source in order: the parsed documents, or the identifier of
/// the first source whose text is not a well-formed document.
pub open spec fn parse_all(sources: Seq<(Seq<char>, Seq<char>)>) -> Result<
    Seq<DocumentView>,
    Seq<char>,
>
    decreases sources.len(),
{
    if sources.len() == 0 {
        Result::Ok(Seq::empty())
    } else {
        match parse_spec(sources.first().1) {
            Option::None => Result::Err(sources.first().0),
            Option::Some(interfaces) => match parse_all(sources.drop_first()) {
                Result::Err(id) => Result::Err(id),
                Result::Ok(rest) => Result::Ok(
                    seq![DocumentView { identifier: sources.first().0, interfaces }] + rest,
                ),
            },
        }
    }
}

pub open spec fn sources_view(sources: Seq<(String, String)>) -> Seq<(Seq<char>, Seq<char>)> {
    sources.map_values(|p: (String, String)| (p.0@, p.1@))
}

/// What `validate_sources` returns: the whole run, from raw text to
/// verdict.  A document that fails to parse aborts the run at once.
pub open spec fn validate_sources_spec(
    sources: Seq<(Seq<char>, Seq<char>)>,
    hint: ResolutionHintView,
    actual: Seq<char>,
) -> Result<ResolvedSignalView, ValidationErrorView> {
    match parse_all(sources) {
        Result::Err(id) => Result::Err(
            ValidationErrorView::Structure(StructuralErrorView { document_identifier: id }),
        ),
        Result::Ok(documents) => validate_spec(documents, hint, actual),
    }
}

spec fn prepend_docs(
    pre: Seq<DocumentView>,
    r: Result<Seq<DocumentView>, Seq<char>>,
) -> Result<Seq<DocumentView>, Seq<char>> {
    match r {
        Result::Err(id) => Result::Err(id),
        Result::Ok(rest) => Result::Ok(pre + rest),
    }
}

/// One whole validation run: parse every source (an identifier and its raw
/// text, in caller-chosen stable order), resolve the hint, extract the
/// resolved signal's signature and compare it with the locally derived one.
#[verifier::loop_isolation(false)]
pub fn validate_sources(
    sources: &Vec<(String, String)>,
    hint: &ResolutionHint,
    actual_signature: &str,
) -> (r: Result<ResolvedSignal, ValidationError>)
    ensures
        (match r {
            Result::Ok(rs) => validate_sources_spec(
                sources_view(sources@),
                hint@,
                actual_signature@,
            ) == Result::<ResolvedSignalView, ValidationErrorView>::Ok(rs@),
            Result::Err(e) => validate_sources_spec(
                sources_view(sources@),
                hint@,
                actual_signature@,
            ) == Result::<ResolvedSignalView, ValidationErrorView>::Err(e@),
        }),
{
    let ghost srcs = sources_view(sources@);
    let mut documents: Vec<Document> = Vec::new();
    let nd = sources.len();
    let mut d: usize = 0;
    proof {
        assert(srcs.skip(0) =~= srcs);
        assert(documents_view(documents@) =~= Seq::<DocumentView>::empty());
    }
    while d < nd
        invariant
            d <= nd,
            parse_all(srcs) == prepend_docs(
                documents_view(documents@),
                parse_all(srcs.skip(d as int)),
            ),
        decreases nd - d,
    {
        let pair = &sources[d];
        proof {
            assert(srcs.skip(d as int).first() == srcs[d as int]);
            assert(srcs.skip(d as int).drop_first() =~= srcs.skip(d + 1));
            assert(srcs[d as int] == (pair.0@, pair.1@));
        }
        let parsed = parse(pair.0.as_str(), pair.1.as_str());
        match parsed {
            Result::Err(e) => {
                return Result::Err(ValidationError::Structure(e));
            },
            Result::Ok(doc) => {
                let ghost docsv = documents_view(documents@);
                let ghost dv = doc@;
                documents.push(doc);
                proof {
                    assert(documents_view(documents@) =~= docsv + seq![dv]);
                    match parse_all(srcs.skip(d + 1)) {
                        Result::Err(id) => {},
                        Result::Ok(rest) => {
                            assert((docsv + seq![dv]) + rest =~= docsv + (seq![dv] + rest));
                        },
                    }
                }
            },
        }
        d = d + 1;
    }
    proof {
        assert(srcs.skip(nd as int) =~= Seq::<(Seq<char>, Seq<char>)>::empty());
        match parse_all(srcs) {
            Result::Err(id) => {},
            Result::Ok(all) => {
                assert(documents_view(documents@) + Seq::<DocumentView>::empty()
                    =~= documents_view(documents@));
            },
        }
    }
    validate(&documents, hint, actual_signature)
}

} // verus!

//! Which exchange accounts an input document carries.
use vstd::prelude::*;

use crate::errors::{code_name, ZkErrorCode, ZktlsError};
use crate::json::{json_accepts, json_check, json_error_text, json_member, json_member_text};

verus! {

/// The attestation documents to check: Binance's unified, spot and futures
/// accounts, and Aster's spot and futures accounts; each group is present only
/// when all of its documents are.
pub struct SourcePlan {
    pub binance: Option<(String, String, String)>,
    pub aster: Option<(String, String)>,
}

/// The member `key` of the input document, as JSON text.
pub open spec fn member(document: Seq<char>, key: Seq<char>) -> Option<Seq<char>> {
    json_member_text(document, key)
}

/// The Binance documents of the input, if all three are there.
pub open spec fn binance_documents(document: Seq<char>) -> Option<(Seq<char>, Seq<char>, Seq<char>)> {
    match (member(document, "unified"@), member(document, "spot"@), member(document, "feature"@)) {
        (Some(u), Some(s), Some(f)) => Some((u, s, f)),
        _ => None,
    }
}

/// The Aster documents of the input, if both are there.
pub open spec fn aster_documents(document: Seq<char>) -> Option<(Seq<char>, Seq<char>)> {
    match (member(document, "asterSpot"@), member(document, "asterFeature"@)) {
        (Some(s), Some(f)) => Some((s, f)),
        _ => None,
    }
}

/// What the input document asks to check, or why it asks nothing.
pub open spec fn plan_outcome(document: Seq<char>) -> Result<
    (Option<(Seq<char>, Seq<char>, Seq<char>)>, Option<(Seq<char>, Seq<char>)>),
    ZkErrorCode,
> {
    if !json_accepts(document) {
        Err(ZkErrorCode::ParseAttestationData)
    } else if binance_documents(document) is None && aster_documents(document) is None {
        Err(ZkErrorCode::MissingRequiredData)
    } else {
        Ok((binance_documents(document), aster_documents(document)))
    }
}

/// The plan as plain values.
pub open spec fn plan_view(p: SourcePlan) -> (
    Option<(Seq<char>, Seq<char>, Seq<char>)>,
    Option<(Seq<char>, Seq<char>)>,
) {
    (
        match p.binance {
            Some((u, s, f)) => Some((u@, s@, f@)),
            None => None,
        },
        match p.aster {
            Some((s, f)) => Some((s@, f@)),
            None => None,
        },
    )
}

/// Reads from the input `document` which accounts to check.
pub fn plan_sources(document: &str) -> (r: Result<SourcePlan, ZktlsError>)
    ensures
        match r {
            Ok(p) => plan_outcome(document@) == Ok::<_, ZkErrorCode>(plan_view(p)),
            Err(e) => {
                &&& plan_outcome(document@) == Err::<
                    (Option<(Seq<char>, Seq<char>, Seq<char>)>, Option<(Seq<char>, Seq<char>)>),
                    _,
                >(e.code_of())
                &&& e.message_of() == if e.code_of() == ZkErrorCode::ParseAttestationData {
                    json_error_text(document@)
                } else {
                    code_name(e.code_of())
                }
            },
        },
{
    match json_check(document) {
        Ok(()) => {},
        Err(message) => {
            return Err(ZktlsError::new(ZkErrorCode::ParseAttestationData, message));
        },
    }
    let unified = json_member(document, "unified");
    let spot = json_member(document, "spot");
    let feature = json_member(document, "feature");
    let aster_spot = json_member(document, "asterSpot");
    let aster_feature = json_member(document, "asterFeature");
    let binance = match (unified, spot, feature) {
        (Some(u), Some(s), Some(f)) => Some((u, s, f)),
        _ => None,
    };
    let aster = match (aster_spot, aster_feature) {
        (Some(s), Some(f)) => Some((s, f)),
        _ => None,
    };
    if binance.is_none() && aster.is_none() {
        return Err(ZktlsError::of(ZkErrorCode::MissingRequiredData));
    }
    Ok(SourcePlan { binance, aster })
}

} // verus!

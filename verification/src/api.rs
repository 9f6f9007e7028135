//! Reading the project list out of the Liferay Cloud API's answer.
use vstd::prelude::*;

use crate::error::LcpError;
use crate::instances::equal_chars;
use crate::text::chars_of;

verus! {

/// What `serde_json` reads from the body bytes `body` as the project listing:
/// `Err` with the text of serde_json's error when the body is not JSON; else
/// the `data.projects` value, `None` when it is not an array, else the
/// `projectId` string of each entry (`None` for an entry without one).
pub uninterp spec fn json_project_listing(body: Seq<u8>) -> Result<
    Option<Seq<Option<Seq<char>>>>,
    Seq<char>,
>;

/// The character views of an optional list of optional strings.
pub open spec fn listing_view(listing: Option<Vec<Option<String>>>) -> Option<
    Seq<Option<Seq<char>>>,
> {
    match listing {
        Some(ids) => Some(
            ids@.map_values(
                |id: Option<String>|
                    match id {
                        Some(s) => Some(s@),
                        None => None,
                    },
            ),
        ),
        None => None,
    }
}

/// `serde_json::from_slice` into a `serde_json::Value`, then
/// `value["data"]["projects"].as_array()` and, for each entry,
/// `entry["projectId"].as_str()`; a parse error comes back as its `Display`
/// text. The contract names what comes out for the body; it states no more
/// of JSON.
#[verifier::external_body]
fn project_listing_from_json(body: &[u8]) -> (r: Result<Option<Vec<Option<String>>>, String>)
    ensures
        match r {
            Ok(listing) => json_project_listing(body@) == Ok::<_, Seq<char>>(listing_view(listing)),
            Err(detail) => json_project_listing(body@) == Err::<Option<Seq<Option<Seq<char>>>>, _>(
                detail@,
            ),
        },
{
    let value: serde_json::Value = match serde_json::from_slice(body) {
        Ok(v) => v,
        Err(e) => return Err(e.to_string()),
    };
    Ok(
        value["data"]["projects"].as_array().map(
            |projects| projects.iter().map(|p| p["projectId"].as_str().map(|id| id.to_string())).collect(),
        ),
    )
}

/// The verdict on a project listing: the listing must be readable and name
/// `project_id`.
pub open spec fn listing_verdict_ok(listing: Option<Seq<Option<Seq<char>>>>, project_id: Seq<char>) -> bool {
    listing matches Some(ids) && ids.contains(Some(project_id))
}

/// A listing passes the check exactly when some entry, at any position,
/// is the project ID.
pub proof fn lemma_listing_verdict_is_membership(listing: Option<Vec<Option<String>>>, project_id: Seq<char>)
    ensures
        listing_verdict_ok(listing_view(listing), project_id) <==> (listing matches Some(ids)
            && exists|i: int|
            0 <= i < ids@.len() && (#[trigger] ids@[i] matches Some(id) && id@ == project_id)),
{
    if let Some(ids) = listing {
        let view = listing_view(listing).unwrap();
        if view.contains(Some(project_id)) {
            let i = choose|i: int| 0 <= i < view.len() && view[i] == Some(project_id);
            assert(ids@[i] matches Some(id) && id@ == project_id);
        }
        if exists|i: int| 0 <= i < ids@.len() && (#[trigger] ids@[i] matches Some(id) && id@ == project_id) {
            let i = choose|i: int| 0 <= i < ids@.len() && (#[trigger] ids@[i] matches Some(id) && id@ == project_id);
            assert(view[i] == Some(project_id));
        }
    }
}

/// Checks that a project listing names `project_id`.
pub fn check_project_listing(listing: Option<Vec<Option<String>>>, project_id: &str) -> (r: Result<
    (),
    LcpError,
>)
    ensures
        r is Ok <==> listing_verdict_ok(listing_view(listing), project_id@),
        r is Ok <==> (listing matches Some(ids) && exists|i: int|
            0 <= i < ids@.len() && (#[trigger] ids@[i] matches Some(id) && id@ == project_id@)),
        listing is None ==> r == Err::<(), LcpError>(LcpError::ProjectsUnreadable),
        listing is Some && r is Err ==> (r matches Err(LcpError::ProjectNotFound { project_id: p })
            && p@ == project_id@),
{
    proof {
        lemma_listing_verdict_is_membership(listing, project_id@);
    }
    let target = chars_of(project_id);
    let ghost whole = listing_view(listing);
    match listing {
        None => Err(LcpError::ProjectsUnreadable),
        Some(ids) => {
            let ghost view = listing_view(Some(ids)).unwrap();
            assert(view.len() == ids@.len());
            for i in 0..ids.len()
                invariant
                    target@ == project_id@,
                    view == listing_view(Some(ids)).unwrap(),
                    whole == Some(view),
                    whole == listing_view(listing),
                    view.len() == ids@.len(),
                    forall|k: int| 0 <= k < i ==> view[k] != Some(project_id@),
            {
                match &ids[i] {
                    Some(id) => {
                        let id_chars = chars_of(id.as_str());
                        if equal_chars(&id_chars, &target) {
                            assert(view[i as int] == Some(project_id@));
                            assert(view.contains(Some(project_id@)));
                            return Ok(());
                        }
                    },
                    None => {},
                }
            }
            assert(!view.contains(Some(project_id@)));
            Err(LcpError::ProjectNotFound { project_id: project_id.to_owned() })
        },
    }
}

/// Checks the API's answer to the project query (the raw body bytes): it
/// must be JSON with a `data.projects` array naming `project_id`.
pub fn validate_project_response(body: &[u8], project_id: &str) -> (r: Result<(), LcpError>)
    ensures
        match json_project_listing(body@) {
            Err(detail) => r matches Err(LcpError::InvalidResponse { detail: d }) && d@ == detail,
            Ok(listing) => {
                &&& r is Ok <==> listing_verdict_ok(listing, project_id@)
                &&& listing is None ==> r == Err::<(), LcpError>(LcpError::ProjectsUnreadable)
                &&& listing is Some && r is Err ==> (r matches Err(
                    LcpError::ProjectNotFound { project_id: p },
                ) && p@ == project_id@)
            },
        },
{
    match project_listing_from_json(body) {
        Ok(listing) => check_project_listing(listing, project_id),
        Err(detail) => Err(LcpError::InvalidResponse { detail }),
    }
}

} // verus!

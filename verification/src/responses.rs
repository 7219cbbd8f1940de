//! Reading the management API's responses: HTTP status checks, the
//! `{ d: { results: [ { Id, Name, Mode? } ] } }` envelope of the two list
//! calls, and the `{ access_token }` body of the token exchange, each
//! pinned to a model of the response text.

use vstd::prelude::*;
use crate::catalog::{CatalogEntry, EntryModel};
use crate::errors::SyncError;
use crate::jsonval::{
    items_model, json_model_of, lemma_arr_model, lemma_obj_model, member_get, members_model,
    obj_lookup, parse_json_text, JsonModel, JsonNode,
};

verus! {

/// A success status, as HTTP has it.
pub open spec fn status_success(status: u16) -> bool {
    200 <= status < 300
}

/// Whether a status code reports success.
pub fn is_success_status(status: u16) -> (r: bool)
    ensures
        r == status_success(status),
{
    200 <= status && status < 300
}

/// Judges the connectivity probe: a non-success status aborts the run
/// before any package work starts.
pub fn check_probe_status(status: u16) -> (r: Result<(), SyncError>)
    ensures
        r is Ok <==> status_success(status),
        (r matches Err(e) ==> e is ConnectivityCheckFailed),
{
    if is_success_status(status) {
        Ok(())
    } else {
        Err(SyncError::ConnectivityCheckFailed)
    }
}

/// Judges an artifact payload download: only the status decides, since the
/// payload bytes are taken as they came.
pub fn check_download_status(status: u16) -> (r: Result<(), SyncError>)
    ensures
        r is Ok <==> status_success(status),
        (r matches Err(e) ==> e is ArtifactDownloadFailed),
{
    if is_success_status(status) {
        Ok(())
    } else {
        Err(SyncError::ArtifactDownloadFailed)
    }
}

/// The catalog row one JSON value carries: `Id` and `Name` must be
/// strings; `Mode` may be a string, null, or absent.
pub open spec fn row_model(m: JsonModel) -> Option<EntryModel> {
    match m {
        JsonModel::MObj(members) => match (
            obj_lookup(members, "Id"@),
            obj_lookup(members, "Name"@),
        ) {
            (Some(JsonModel::MText(id)), Some(JsonModel::MText(name))) => match obj_lookup(
                members,
                "Mode"@,
            ) {
                None => Some(EntryModel { id, name, mode: None }),
                Some(JsonModel::MNull) => Some(EntryModel { id, name, mode: None }),
                Some(JsonModel::MText(mode)) => Some(EntryModel { id, name, mode: Some(mode) }),
                Some(_) => None,
            },
            _ => None,
        },
        _ => None,
    }
}

/// The rows a `results` array carries, in array order, duplicates
/// included; nothing when any element is no valid row.
pub open spec fn rows_model(items: Seq<JsonModel>) -> Option<Seq<EntryModel>>
    decreases items.len(),
{
    if items.len() == 0 {
        Some(Seq::empty())
    } else {
        match (rows_model(items.drop_last()), row_model(items.last())) {
            (Some(rest), Some(r)) => Some(rest.push(r)),
            _ => None,
        }
    }
}

proof fn lemma_rows_model_bad(items: Seq<JsonModel>, j: int)
    requires
        0 <= j < items.len(),
        row_model(items[j]) is None,
    ensures
        rows_model(items) is None,
    decreases items.len(),
{
    if j < items.len() - 1 {
        lemma_rows_model_bad(items.drop_last(), j);
    }
}

/// The rows of a `{ d: { results: [...] } }` document: nothing when the
/// document does not have that shape.
pub open spec fn envelope_model(m: JsonModel) -> Option<Seq<EntryModel>> {
    match m {
        JsonModel::MObj(root) => match obj_lookup(root, "d"@) {
            Some(JsonModel::MObj(d)) => match obj_lookup(d, "results"@) {
                Some(JsonModel::MArr(items)) => rows_model(items),
                _ => None,
            },
            _ => None,
        },
        _ => None,
    }
}

/// The rows a list-response body carries: nothing when the body is not
/// JSON or not the expected envelope.
pub open spec fn envelope_of(s: Seq<char>) -> Option<Seq<EntryModel>> {
    match json_model_of(s) {
        Some(m) => envelope_model(m),
        None => None,
    }
}

/// Reads one row of a `results` array.
fn parse_entry(row: &JsonNode) -> (r: Option<CatalogEntry>)
    ensures
        r is Some <==> row_model(row.model()) is Some,
        (r matches Some(e) ==> row_model(row.model()) == Some(e@)),
{
    let members = match row {
        JsonNode::Obj(members) => members,
        _ => {
            return None;
        },
    };
    proof {
        lemma_obj_model(row);
    }
    let id = match member_get(members, &String::from_str("Id")) {
        Some(n) => match n {
            JsonNode::Text(s) => s.clone(),
            _ => {
                return None;
            },
        },
        None => {
            return None;
        },
    };
    let name = match member_get(members, &String::from_str("Name")) {
        Some(n) => match n {
            JsonNode::Text(s) => s.clone(),
            _ => {
                return None;
            },
        },
        None => {
            return None;
        },
    };
    let mode = match member_get(members, &String::from_str("Mode")) {
        Some(n) => match n {
            JsonNode::Null => None,
            JsonNode::Text(s) => Some(s.clone()),
            _ => {
                return None;
            },
        },
        None => None,
    };
    Some(CatalogEntry { id, name, mode })
}

/// Reads the rows of the `{ d: { results: [...] } }` envelope of a list
/// response body.
fn parse_envelope(body: &str) -> (r: Option<Vec<CatalogEntry>>)
    ensures
        r is Some <==> envelope_of(body@) is Some,
        (r matches Some(v) ==> Some(v@.map_values(|e: CatalogEntry| e@)) == envelope_of(body@)),
{
    let root = match parse_json_text(body) {
        Some(n) => n,
        None => {
            return None;
        },
    };
    let root_members = match &root {
        JsonNode::Obj(ms) => ms,
        _ => {
            return None;
        },
    };
    proof {
        lemma_obj_model(&root);
    }
    let d = match member_get(root_members, &String::from_str("d")) {
        Some(n) => n,
        None => {
            return None;
        },
    };
    let d_members = match d {
        JsonNode::Obj(ms) => ms,
        _ => {
            return None;
        },
    };
    proof {
        lemma_obj_model(d);
    }
    let results = match member_get(d_members, &String::from_str("results")) {
        Some(n) => n,
        None => {
            return None;
        },
    };
    let items = match results {
        JsonNode::Arr(items) => items,
        _ => {
            return None;
        },
    };
    let ghost imodels = items_model(items@);
    proof {
        lemma_arr_model(results);
        assert(envelope_of(body@) == rows_model(imodels));
    }
    let mut entries: Vec<CatalogEntry> = Vec::new();
    proof {
        assert(imodels.subrange(0, 0) =~= Seq::<JsonModel>::empty());
        assert(entries@.map_values(|e: CatalogEntry| e@) =~= Seq::<EntryModel>::empty());
    }
    let mut k: usize = 0;
    while k < items.len()
        invariant
            imodels == items_model(items@),
            imodels.len() == items@.len(),
            envelope_of(body@) == rows_model(imodels),
            k <= items.len(),
            rows_model(imodels.subrange(0, k as int)) == Some(
                entries@.map_values(|e: CatalogEntry| e@),
            ),
        decreases items.len() - k,
    {
        match parse_entry(&items[k]) {
            Some(e) => {
                let ghost e_model = e@;
                let ghost pre_view = entries@.map_values(|x: CatalogEntry| x@);
                entries.push(e);
                proof {
                    let pref = imodels.subrange(0, k as int);
                    let next = imodels.subrange(0, k as int + 1);
                    assert(next.drop_last() =~= pref);
                    assert(next.last() == imodels[k as int]);
                    assert(imodels[k as int] == items@[k as int].model());
                    assert(entries@.map_values(|x: CatalogEntry| x@) =~= pre_view.push(e_model));
                }
            },
            None => {
                proof {
                    lemma_rows_model_bad(imodels, k as int);
                }
                return None;
            },
        }
        k += 1;
    }
    proof {
        assert(imodels.subrange(0, items@.len() as int) =~= imodels);
    }
    Some(entries)
}

/// Judges the catalog listing and reads its rows: `Ok` exactly when the
/// status is success and the body carries the envelope, and then the rows
/// come back verbatim, in response order, duplicates included. Anything
/// else is `CatalogFetchFailed`, and no row is handed on: package work
/// cannot start.
pub fn parse_catalog_response(status: u16, body: &str) -> (r: Result<Vec<CatalogEntry>, SyncError>)
    ensures
        r is Ok <==> (status_success(status) && envelope_of(body@) is Some),
        (r matches Ok(entries) ==> Some(entries@.map_values(|e: CatalogEntry| e@)) == envelope_of(
            body@,
        )),
        (r matches Err(e) ==> e is CatalogFetchFailed),
        (!status_success(status) ==> r is Err),
{
    if !is_success_status(status) {
        return Err(SyncError::CatalogFetchFailed);
    }
    match parse_envelope(body) {
        Some(entries) => Ok(entries),
        None => Err(SyncError::CatalogFetchFailed),
    }
}

/// Judges a per-package artifact listing and reads its rows, as the
/// catalog listing is read, but failing with `ArtifactListFailed`.
pub fn parse_artifact_list_response(status: u16, body: &str) -> (r: Result<
    Vec<CatalogEntry>,
    SyncError,
>)
    ensures
        r is Ok <==> (status_success(status) && envelope_of(body@) is Some),
        (r matches Ok(entries) ==> Some(entries@.map_values(|e: CatalogEntry| e@)) == envelope_of(
            body@,
        )),
        (r matches Err(e) ==> e is ArtifactListFailed),
        (!status_success(status) ==> r is Err),
{
    if !is_success_status(status) {
        return Err(SyncError::ArtifactListFailed);
    }
    match parse_envelope(body) {
        Some(entries) => Ok(entries),
        None => Err(SyncError::ArtifactListFailed),
    }
}

/// The access token a token-exchange body carries: nothing when the body
/// is not JSON or `access_token` is not a string member of the root.
pub open spec fn token_model(s: Seq<char>) -> Option<Seq<char>> {
    match json_model_of(s) {
        Some(JsonModel::MObj(root)) => match obj_lookup(root, "access_token"@) {
            Some(JsonModel::MText(t)) => Some(t),
            _ => None,
        },
        _ => None,
    }
}

/// Reads the token-exchange response and builds the bearer header from its
/// `access_token` member; any body without that member is
/// `AuthExchangeFailed`.
pub fn parse_token_response(body: &str) -> (r: Result<String, SyncError>)
    ensures
        r is Ok <==> token_model(body@) is Some,
        (r matches Ok(h) ==> h@ == "Bearer "@ + token_model(body@)->0),
        (r matches Err(e) ==> e is AuthExchangeFailed),
{
    let root = match parse_json_text(body) {
        Some(n) => n,
        None => {
            return Err(SyncError::AuthExchangeFailed);
        },
    };
    let root_members = match &root {
        JsonNode::Obj(ms) => ms,
        _ => {
            return Err(SyncError::AuthExchangeFailed);
        },
    };
    proof {
        lemma_obj_model(&root);
    }
    let token = match member_get(root_members, &String::from_str("access_token")) {
        Some(n) => match n {
            JsonNode::Text(s) => s,
            _ => {
                return Err(SyncError::AuthExchangeFailed);
            },
        },
        None => {
            return Err(SyncError::AuthExchangeFailed);
        },
    };
    let header = crate::auth::bearer_header(token.as_str());
    Ok(header)
}

} // verus!

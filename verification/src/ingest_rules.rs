//! What a batch of records must meet before it is written.

use vstd::prelude::*;
use vstd::string::*;
use vstd::utf8::encode_utf8;

use crate::api_error::{error_of, plain_error, ApiError, ErrorCode, ErrorView};
use crate::evidence_edges::{filled, is_filled};
use crate::ir::{
    record_id, GraphRecord, IdentitySource, NodeKind, RepositoryIdentityPayload,
    RepositoryIdentityView,
};
use crate::outside::{blake3_hex, blake3_hex_of};
use crate::text::{concat6, has_prefix, starts_with, str_eq};

verus! {

// ---------------------------------------------------------------------------
// Recovery keys
// ---------------------------------------------------------------------------

/// The bytes of the `i`-th record: nothing where they are not known.
pub open spec fn payload_at(payloads: Seq<Vec<u8>>, i: int) -> Seq<u8> {
    if 0 <= i < payloads.len() {
        payloads[i]@
    } else {
        Seq::empty()
    }
}

/// The key by which a record is found again after an interrupted write.
pub open spec fn recovery_key_of(r: GraphRecord, payload: Seq<u8>) -> Seq<char> {
    match r {
        GraphRecord::Node(n) => match n.temporal {
            Some(t) => "node\0"@ + n.id@ + "\0"@ + t.git_commit@,
            None => n.id@,
        },
        GraphRecord::Tombstone(t) => t.id@,
        GraphRecord::Edge(e) => "edge\0"@ + e.id@ + "\0"@ + (match e.temporal {
            Some(t) => t.git_commit@,
            None => ""@,
        }) + "\0"@ + blake3_hex_of(payload),
    }
}

/// The recovery key of the `i`-th record.
pub open spec fn key_of(s: Seq<GraphRecord>, payloads: Seq<Vec<u8>>, i: int) -> Seq<char> {
    recovery_key_of(s[i], payload_at(payloads, i))
}

/// Whether two records have the same recovery key.
pub open spec fn duplicate_keys(s: Seq<GraphRecord>, payloads: Seq<Vec<u8>>) -> bool {
    exists|i: int, j: int|
        0 <= i < j < s.len() && #[trigger] key_of(s, payloads, i) == #[trigger] key_of(
            s,
            payloads,
            j,
        )
}

/// Whether two records have the same recovery key, none between them has it, and they
/// differ.
pub open spec fn ambiguous_keys(s: Seq<GraphRecord>, payloads: Seq<Vec<u8>>) -> bool {
    exists|i: int, j: int|
        #![trigger key_of(s, payloads, i), key_of(s, payloads, j)]
        0 <= i < j < s.len() && key_of(s, payloads, i) == key_of(s, payloads, j) && s[i]@ != s[j]@
            && forall|k: int|
            i < k < j ==> #[trigger] key_of(s, payloads, k) != key_of(s, payloads, j)
}

/// The key by which a record is found again after an interrupted write. An edge is
/// told apart by the bytes of its record too.
pub fn recovery_key(record: &GraphRecord, payload: &Vec<u8>) -> (r: String)
    ensures
        r@ == recovery_key_of(*record, payload@),
{
    match record {
        GraphRecord::Node(n) => match &n.temporal {
            Some(t) => crate::text::concat4(
                "node\0",
                n.id.as_str(),
                "\0",
                t.git_commit.as_str(),
            ),
            None => n.id.clone(),
        },
        GraphRecord::Tombstone(t) => t.id.clone(),
        GraphRecord::Edge(e) => {
            let commit = match &e.temporal {
                Some(t) => t.git_commit.as_str(),
                None => "",
            };
            concat6(
                "edge\0",
                e.id.as_str(),
                "\0",
                commit,
                "\0",
                blake3_hex(payload).as_str(),
            )
        },
    }
}

fn keys_of(records: &Vec<GraphRecord>, payloads: &Vec<Vec<u8>>) -> (r: Vec<String>)
    ensures
        r@.len() == records@.len(),
        forall|i: int| 0 <= i < r@.len() ==> (#[trigger] r@[i])@ == key_of(records@, payloads@, i),
{
    let mut keys: Vec<String> = Vec::new();
    let none: Vec<u8> = Vec::new();
    let mut i: usize = 0;
    while i < records.len()
        invariant
            i <= records@.len(),
            keys@.len() == i,
            none@ == Seq::<u8>::empty(),
            forall|k: int|
                0 <= k < i ==> (#[trigger] keys@[k])@ == key_of(records@, payloads@, k),
        decreases records@.len() - i,
    {
        let payload = if i < payloads.len() {
            &payloads[i]
        } else {
            &none
        };
        keys.push(recovery_key(&records[i], payload));
        i = i + 1;
    }
    keys
}

/// Whether two records have the same recovery key.
pub fn has_duplicate_recovery_keys(records: &Vec<GraphRecord>, payloads: &Vec<Vec<u8>>) -> (r: bool)
    ensures
        r == duplicate_keys(records@, payloads@),
{
    let keys = keys_of(records, payloads);
    let mut j: usize = 0;
    while j < records.len()
        invariant
            j <= records@.len(),
            keys@.len() == records@.len(),
            forall|k: int|
                0 <= k < keys@.len() ==> (#[trigger] keys@[k])@ == key_of(records@, payloads@, k),
            forall|a: int, b: int|
                0 <= a < b < j ==> #[trigger] key_of(records@, payloads@, a) != #[trigger] key_of(
                    records@,
                    payloads@,
                    b,
                ),
        decreases records@.len() - j,
    {
        let mut i: usize = 0;
        while i < j
            invariant
                i <= j < records@.len(),
                keys@.len() == records@.len(),
                forall|k: int|
                    0 <= k < keys@.len() ==> (#[trigger] keys@[k])@ == key_of(
                        records@,
                        payloads@,
                        k,
                    ),
                forall|a: int|
                    0 <= a < i ==> #[trigger] key_of(records@, payloads@, a) != key_of(
                        records@,
                        payloads@,
                        j as int,
                    ),
            decreases j - i,
        {
            assert(keys@[i as int]@ == key_of(records@, payloads@, i as int));
            assert(keys@[j as int]@ == key_of(records@, payloads@, j as int));
            if str_eq(keys[i].as_str(), keys[j].as_str()) {
                return true;
            }
            i = i + 1;
        }
        j = j + 1;
    }
    false
}

/// Whether two records have the same recovery key but differ. Each record is compared
/// with the last one before it that has its key.
pub fn has_ambiguous_recovery_keys(records: &Vec<GraphRecord>, payloads: &Vec<Vec<u8>>) -> (r: bool)
    ensures
        r == ambiguous_keys(records@, payloads@),
{
    let keys = keys_of(records, payloads);
    let ghost s = records@;
    let ghost p = payloads@;
    let mut j: usize = 0;
    while j < records.len()
        invariant
            j <= records@.len(),
            s == records@,
            p == payloads@,
            keys@.len() == records@.len(),
            forall|k: int| 0 <= k < keys@.len() ==> (#[trigger] keys@[k])@ == key_of(s, p, k),
            forall|a: int, b: int|
                0 <= a < b < j && #[trigger] key_of(s, p, a) == #[trigger] key_of(s, p, b) && (
                forall|k: int| a < k < b ==> #[trigger] key_of(s, p, k) != key_of(s, p, b))
                    ==> s[a]@ == s[b]@,
        decreases records@.len() - j,
    {
        let mut i: usize = j;
        let mut found = false;
        while i > 0 && !found
            invariant
                i <= j < records@.len(),
                s == records@,
                p == payloads@,
                keys@.len() == records@.len(),
                forall|k: int| 0 <= k < keys@.len() ==> (#[trigger] keys@[k])@ == key_of(s, p, k),
                found ==> i < j && key_of(s, p, i as int) == key_of(s, p, j as int),
                forall|k: int|
                    i <= k < j && (!found || k > i) ==> #[trigger] key_of(s, p, k) != key_of(
                        s,
                        p,
                        j as int,
                    ),
            decreases i,
        {
            assert(keys@[i - 1]@ == key_of(s, p, i - 1));
            assert(keys@[j as int]@ == key_of(s, p, j as int));
            i = i - 1;
            if str_eq(keys[i].as_str(), keys[j].as_str()) {
                found = true;
            }
        }
        if found && !records[i].same(&records[j]) {
            assert(key_of(s, p, i as int) == key_of(s, p, j as int));
            return true;
        }
        proof {
            assert forall|a: int, b: int|
                0 <= a < b < j + 1 && #[trigger] key_of(s, p, a) == #[trigger] key_of(s, p, b) && (
                forall|k: int| a < k < b ==> #[trigger] key_of(s, p, k) != key_of(s, p, b))
                implies s[a]@ == s[b]@ by {
                if b == j {
                    if !found {
                        assert(key_of(s, p, a) != key_of(s, p, j as int));
                    } else if a < i {
                        assert(key_of(s, p, i as int) != key_of(s, p, b));
                    } else if a > i {
                        assert(key_of(s, p, a) != key_of(s, p, j as int));
                    }
                }
            }
        }
        j = j + 1;
    }
    false
}

/// Records that differ under one key are in particular duplicates.
pub proof fn law_ambiguous_keys_are_duplicates(s: Seq<GraphRecord>, payloads: Seq<Vec<u8>>)
    ensures
        ambiguous_keys(s, payloads) ==> duplicate_keys(s, payloads),
{
}

/// What is wrong with the recovery keys of a batch.
pub open spec fn recovery_key_error(s: Seq<GraphRecord>, payloads: Seq<Vec<u8>>) -> Option<
    ErrorView,
> {
    if duplicate_keys(s, payloads) || ambiguous_keys(s, payloads) {
        Some(
            plain_error(
                ErrorCode::IdempotencyConflict,
                "ingest payload has duplicate record IDs that are not idempotently recoverable"@,
            ),
        )
    } else {
        None
    }
}

/// Checks that every record of a batch can be told from the others after an
/// interrupted write.
pub fn validate_unique_recovery_keys(records: &Vec<GraphRecord>, payloads: &Vec<Vec<u8>>) -> (r:
    Result<(), ApiError>)
    ensures
        error_of(r) == recovery_key_error(records@, payloads@),
{
    if has_duplicate_recovery_keys(records, payloads) || has_ambiguous_recovery_keys(
        records,
        payloads,
    ) {
        return Err(
            ApiError::conflict(
                "ingest payload has duplicate record IDs that are not idempotently recoverable".to_owned(),
            ),
        );
    }
    Ok(())
}

// ---------------------------------------------------------------------------
// Local-path identities
// ---------------------------------------------------------------------------

/// What is known of the repository identities of a batch.
pub struct IdentityFacts {
    /// The remote URLs that name a place on this machine.
    pub local_urls: Vec<String>,
    /// The repositories whose identifier does not follow from their declared identity.
    pub unmatched: Vec<String>,
}

/// What is known of the repositories of a store.
pub struct StoredRepositories {
    /// The repositories.
    pub ids: Vec<String>,
    /// Those with a local-path identity.
    pub local_path_ids: Vec<String>,
    /// Whether the store holds records outside the code graph.
    pub multi_domain: bool,
}

/// Whether the text is in the list.
pub open spec fn listed(v: Seq<String>, x: Seq<char>) -> bool {
    exists|i: int| 0 <= i < v.len() && (#[trigger] v[i])@ == x
}

/// Whether a declared identity only holds on this machine.
pub open spec fn identity_is_local(p: RepositoryIdentityView, local_urls: Seq<String>) -> bool {
    match p.identity_source {
        IdentitySource::LocalPath => true,
        IdentitySource::Remote => p.remote_url is None || listed(local_urls, p.remote_url->0),
        IdentitySource::LocalRootCommit => !filled(p.root_commit_sha),
        IdentitySource::OperatorOverride => false,
    }
}

fn is_listed(v: &Vec<String>, x: &str) -> (r: bool)
    ensures
        r == listed(v@, x@),
{
    let mut i: usize = 0;
    while i < v.len()
        invariant
            i <= v@.len(),
            forall|k: int| 0 <= k < i ==> (#[trigger] v@[k])@ != x@,
        decreases v@.len() - i,
    {
        if str_eq(v[i].as_str(), x) {
            return true;
        }
        i = i + 1;
    }
    false
}

/// Whether a declared identity only holds on this machine.
pub fn incoming_identity_is_local(p: &RepositoryIdentityPayload, local_urls: &Vec<String>) -> (r:
    bool)
    ensures
        r == identity_is_local(p@, local_urls@),
{
    match p.identity_source {
        IdentitySource::LocalPath => true,
        IdentitySource::Remote => match &p.remote_url {
            Some(u) => is_listed(local_urls, u.as_str()),
            None => true,
        },
        IdentitySource::LocalRootCommit => !is_filled(&p.root_commit_sha),
        IdentitySource::OperatorOverride => false,
    }
}

/// Whether the record is a repository.
pub open spec fn repository_node(r: GraphRecord) -> bool {
    r is Node && r->Node_0.kind == NodeKind::Repository
}

/// Whether the record is a repository whose identity is not known to hold elsewhere.
pub open spec fn unsafe_repository(
    r: GraphRecord,
    local_urls: Seq<String>,
    unmatched: Seq<String>,
) -> bool {
    repository_node(r) && match r->Node_0.repository_identity {
        None => true,
        Some(p) => identity_is_local(p@, local_urls) || listed(unmatched, r->Node_0.id@),
    }
}

/// Whether the batch has a repository other than this one.
pub open spec fn brings_other_repository(s: Seq<GraphRecord>, id: Seq<char>) -> bool {
    exists|i: int| 0 <= i < s.len() && repository_node(#[trigger] s[i]) && record_id(s[i]) != id
}

/// Whether the batch has a record outside the code graph.
pub open spec fn brings_other_domain(s: Seq<GraphRecord>) -> bool {
    exists|i: int| 0 <= i < s.len() && !has_prefix(record_id(#[trigger] s[i]), "codegraph:"@)
}

/// Whether the batch retracts the identifier.
pub open spec fn retracts(s: Seq<GraphRecord>, id: Seq<char>) -> bool {
    exists|i: int|
        0 <= i < s.len() && (#[trigger] s[i]) is Tombstone && s[i]->Tombstone_0.deleted_id@ == id
}

/// Whether the batch would make a store shared that holds a local-path repository
/// which the batch does not retract.
pub open spec fn shares_local_store(s: Seq<GraphRecord>, local_ids: Seq<String>) -> bool {
    exists|i: int|
        0 <= i < local_ids.len() && !retracts(s, (#[trigger] local_ids[i])@) && (
        brings_other_repository(s, local_ids[i]@) || brings_other_domain(s))
}

/// Whether the `i`-th record is a repository with an unsafe identity.
pub open spec fn unsafe_at(
    s: Seq<GraphRecord>,
    local_urls: Seq<String>,
    unmatched: Seq<String>,
    i: int,
) -> bool {
    0 <= i < s.len() && unsafe_repository(s[i], local_urls, unmatched)
}

/// Whether the store has a repository other than this one.
pub open spec fn stores_other(ids: Seq<String>, id: Seq<char>) -> bool {
    exists|i: int| 0 <= i < ids.len() && (#[trigger] ids[i])@ != id
}

/// What is wrong with the repository identities of a batch.
pub open spec fn local_path_error(
    s: Seq<GraphRecord>,
    facts: IdentityFacts,
    stored: StoredRepositories,
) -> Option<ErrorView> {
    let urls = facts.local_urls@;
    let un = facts.unmatched@;
    if shares_local_store(s, stored.local_path_ids@) {
        Some(plain_error(ErrorCode::LocalPathIdentityUnsupported, local_store_text()))
    } else if exists|i: int, j: int|
        #[trigger] unsafe_at(s, urls, un, i) && #[trigger] unsafe_at(s, urls, un, j) && record_id(
            s[i],
        ) != record_id(s[j]) {
        Some(plain_error(ErrorCode::LocalPathIdentityUnsupported, two_local_text()))
    } else if exists|i: int| #[trigger]
        unsafe_at(s, urls, un, i) && (stores_other(stored.ids@, record_id(s[i]))
            || brings_other_repository(s, record_id(s[i])) || stored.multi_domain
            || brings_other_domain(s)) {
        Some(plain_error(ErrorCode::LocalPathIdentityUnsupported, shared_store_text()))
    } else {
        None
    }
}

/// The error of a batch that would make a local-path store shared.
pub open spec fn local_store_text() -> Seq<char> {
    "store already contains a Repository with identity_source 'local_path'; adding a different repository or non-codegraph records would make it shared. Use a remote-backed clone or --repo-id-override."@
}

/// The error of a batch with two local-path repositories.
pub open spec fn two_local_text() -> Seq<char> {
    "ingest batch contains multiple distinct Repository nodes with identity_source 'local_path'; only one local-path repository may be ingested into a store"@
}

/// The error of a local-path repository that would come into a shared store.
pub open spec fn shared_store_text() -> Seq<char> {
    "Repository node with identity_source 'local_path' cannot be ingested into a shared store. Use a remote-backed clone or --repo-id-override to assign a stable identity before ingesting into a shared daemon store."@
}

fn is_repository(r: &GraphRecord) -> (b: bool)
    ensures
        b == repository_node(*r),
{
    match r {
        GraphRecord::Node(n) => n.kind == NodeKind::Repository,
        _ => false,
    }
}

fn is_unsafe_repository(r: &GraphRecord, facts: &IdentityFacts) -> (b: bool)
    ensures
        b == unsafe_repository(*r, facts.local_urls@, facts.unmatched@),
{
    match r {
        GraphRecord::Node(n) => n.kind == NodeKind::Repository && match &n.repository_identity {
            None => true,
            Some(p) => incoming_identity_is_local(p, &facts.local_urls) || is_listed(
                &facts.unmatched,
                n.id.as_str(),
            ),
        },
        _ => false,
    }
}

fn has_other_repository(s: &Vec<GraphRecord>, id: &str) -> (b: bool)
    ensures
        b == brings_other_repository(s@, id@),
{
    let mut i: usize = 0;
    while i < s.len()
        invariant
            i <= s@.len(),
            forall|k: int|
                0 <= k < i ==> !(repository_node(#[trigger] s@[k]) && record_id(s@[k]) != id@),
        decreases s@.len() - i,
    {
        if is_repository(&s[i]) && !str_eq(s[i].id(), id) {
            return true;
        }
        i = i + 1;
    }
    false
}

fn has_other_domain(s: &Vec<GraphRecord>) -> (b: bool)
    ensures
        b == brings_other_domain(s@),
{
    let mut i: usize = 0;
    while i < s.len()
        invariant
            i <= s@.len(),
            forall|k: int| 0 <= k < i ==> has_prefix(record_id(#[trigger] s@[k]), "codegraph:"@),
        decreases s@.len() - i,
    {
        if !starts_with(s[i].id(), "codegraph:") {
            return true;
        }
        i = i + 1;
    }
    false
}

fn has_retraction(s: &Vec<GraphRecord>, id: &str) -> (b: bool)
    ensures
        b == retracts(s@, id@),
{
    let mut i: usize = 0;
    while i < s.len()
        invariant
            i <= s@.len(),
            forall|k: int|
                0 <= k < i ==> !((#[trigger] s@[k]) is Tombstone
                    && s@[k]->Tombstone_0.deleted_id@ == id@),
        decreases s@.len() - i,
    {
        match &s[i] {
            GraphRecord::Tombstone(t) => {
                if str_eq(t.deleted_id.as_str(), id) {
                    return true;
                }
            },
            _ => {},
        }
        i = i + 1;
    }
    false
}

fn has_other_id(v: &Vec<String>, id: &str) -> (b: bool)
    ensures
        b == stores_other(v@, id@),
{
    let mut i: usize = 0;
    while i < v.len()
        invariant
            i <= v@.len(),
            forall|k: int| 0 <= k < i ==> (#[trigger] v@[k])@ == id@,
        decreases v@.len() - i,
    {
        if !str_eq(v[i].as_str(), id) {
            return true;
        }
        i = i + 1;
    }
    false
}

fn would_share_local_store(s: &Vec<GraphRecord>, local_ids: &Vec<String>, other_domain: bool) -> (b:
    bool)
    requires
        other_domain == brings_other_domain(s@),
    ensures
        b == shares_local_store(s@, local_ids@),
{
    let mut i: usize = 0;
    while i < local_ids.len()
        invariant
            i <= local_ids@.len(),
            other_domain == brings_other_domain(s@),
            forall|k: int|
                0 <= k < i ==> !(!retracts(s@, (#[trigger] local_ids@[k])@) && (
                brings_other_repository(s@, local_ids@[k]@) || brings_other_domain(s@))),
        decreases local_ids@.len() - i,
    {
        let id = local_ids[i].as_str();
        if !has_retraction(s, id) && (has_other_repository(s, id) || other_domain) {
            return true;
        }
        i = i + 1;
    }
    false
}

fn find_unsafe(s: &Vec<GraphRecord>, facts: &IdentityFacts) -> (r: Option<usize>)
    ensures
        match r {
            Some(i) => unsafe_at(s@, facts.local_urls@, facts.unmatched@, i as int),
            None => forall|i: int| !#[trigger] unsafe_at(s@, facts.local_urls@, facts.unmatched@, i),
        },
{
    let mut i: usize = 0;
    while i < s.len()
        invariant
            i <= s@.len(),
            forall|k: int|
                0 <= k < i ==> !#[trigger] unsafe_at(s@, facts.local_urls@, facts.unmatched@, k),
        decreases s@.len() - i,
    {
        if is_unsafe_repository(&s[i], facts) {
            return Some(i);
        }
        i = i + 1;
    }
    None
}

fn has_second_unsafe(s: &Vec<GraphRecord>, facts: &IdentityFacts, id: &str) -> (b: bool)
    ensures
        b == exists|i: int| #[trigger]
            unsafe_at(s@, facts.local_urls@, facts.unmatched@, i) && record_id(s@[i]) != id@,
{
    let mut i: usize = 0;
    while i < s.len()
        invariant
            i <= s@.len(),
            forall|k: int|
                0 <= k < i && #[trigger] unsafe_at(s@, facts.local_urls@, facts.unmatched@, k)
                    ==> record_id(s@[k]) == id@,
        decreases s@.len() - i,
    {
        if is_unsafe_repository(&s[i], facts) && !str_eq(s[i].id(), id) {
            assert(unsafe_at(s@, facts.local_urls@, facts.unmatched@, i as int));
            return true;
        }
        i = i + 1;
    }
    false
}

/// Checks that a repository that only this machine knows stays alone in its store. A
/// batch that retracts the stored local-path repository may replace it.
pub fn validate_no_local_path_identity_in_shared_store(
    s: &Vec<GraphRecord>,
    facts: &IdentityFacts,
    stored: &StoredRepositories,
) -> (r: Result<(), ApiError>)
    ensures
        error_of(r) == local_path_error(s@, *facts, *stored),
{
    let other_domain = has_other_domain(s);
    if would_share_local_store(s, &stored.local_path_ids, other_domain) {
        return Err(
            ApiError::new(
                ErrorCode::LocalPathIdentityUnsupported,
                "store already contains a Repository with identity_source 'local_path'; adding a different repository or non-codegraph records would make it shared. Use a remote-backed clone or --repo-id-override.".to_owned(),
            ),
        );
    }
    let i: usize = match find_unsafe(s, facts) {
        None => {
            return Ok(());
        },
        Some(i) => i,
    };
    let id = s[i].id();
    let ghost urls = facts.local_urls@;
    let ghost un = facts.unmatched@;
    if has_second_unsafe(s, facts, id) {
        return Err(
            ApiError::new(
                ErrorCode::LocalPathIdentityUnsupported,
                "ingest batch contains multiple distinct Repository nodes with identity_source 'local_path'; only one local-path repository may be ingested into a store".to_owned(),
            ),
        );
    }
    proof {
        assert forall|j: int| #[trigger] unsafe_at(s@, urls, un, j) implies record_id(s@[j])
            == id@ by {}
    }
    if has_other_id(&stored.ids, id) || has_other_repository(s, id) || stored.multi_domain
        || other_domain {
        assert(unsafe_at(s@, urls, un, i as int));
        return Err(
            ApiError::new(
                ErrorCode::LocalPathIdentityUnsupported,
                "Repository node with identity_source 'local_path' cannot be ingested into a shared store. Use a remote-backed clone or --repo-id-override to assign a stable identity before ingesting into a shared daemon store.".to_owned(),
            ),
        );
    }
    Ok(())
}

/// After an accepted batch, a repository that only this machine knows is the only
/// repository of the store and of the batch, and nothing but code is beside it.
pub proof fn law_local_path_repository_stays_alone(
    s: Seq<GraphRecord>,
    facts: IdentityFacts,
    stored: StoredRepositories,
    i: int,
    j: int,
)
    requires
        local_path_error(s, facts, stored) is None,
        unsafe_at(s, facts.local_urls@, facts.unmatched@, i),
        0 <= j < s.len(),
    ensures
        !stored.multi_domain,
        has_prefix(record_id(s[j]), "codegraph:"@),
        repository_node(s[j]) ==> record_id(s[j]) == record_id(s[i]),
        forall|k: int| 0 <= k < stored.ids@.len() ==> (#[trigger] stored.ids@[k])@ == record_id(s[i]),
{
    let id = record_id(s[i]);
    assert(!brings_other_domain(s) && !brings_other_repository(s, id) && !stores_other(
        stored.ids@,
        id,
    ));
}

} // verus!

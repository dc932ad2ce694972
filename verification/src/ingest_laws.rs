//! Which batches a store takes, said of their records.

use vstd::prelude::*;

use crate::api_error::ErrorCode;
use crate::embedding_laws::{lemma_split, zero_free};
use crate::ingest_rules::{
    brings_other_domain, brings_other_repository, key_of, local_path_error, payload_at,
    recovery_key_error, repository_node, retracts, shares_local_store, stores_other, unsafe_at,
    IdentityFacts, StoredRepositories,
};
use crate::ir::{GraphRecord, IdentitySource, NodeKind};
use crate::maintenance::{missing_warning, watched, WatchDir};
use crate::outside::blake3_hex_of;
use crate::record_rules::{artifact_domain_error, artifact_errors, pinned_errors};
use crate::text::has_prefix;

verus! {

/// The identifier of a record.
pub open spec fn named(r: GraphRecord) -> Seq<char> {
    match r {
        GraphRecord::Node(n) => n.id@,
        GraphRecord::Edge(e) => e.id@,
        GraphRecord::Tombstone(t) => t.id@,
    }
}

/// Whether the text is one of those listed.
pub open spec fn among(v: Seq<String>, x: Seq<char>) -> bool {
    exists|i: int| 0 <= i < v.len() && (#[trigger] v[i])@ == x
}

/// Whether the record is a repository.
pub open spec fn is_repository(r: GraphRecord) -> bool {
    r is Node && r->Node_0.kind == NodeKind::Repository
}

/// Whether the record is a repository that only this machine knows: it declares no identity, or a
/// path, or a remote without a URL or with one of this machine, or a root commit without its hash,
/// or its identifier does not follow from what it declares.
pub open spec fn known_here_only(r: GraphRecord, facts: IdentityFacts) -> bool {
    let p = r->Node_0.repository_identity->0;
    &&& is_repository(r)
    &&& {
        ||| r->Node_0.repository_identity is None
        ||| among(facts.unmatched@, r->Node_0.id@)
        ||| p.identity_source == IdentitySource::LocalPath
        ||| p.identity_source == IdentitySource::Remote && (p.remote_url is None || among(
            facts.local_urls@,
            p.remote_url->0@,
        ))
        ||| p.identity_source == IdentitySource::LocalRootCommit && (p.root_commit_sha is None
            || p.root_commit_sha->0@.len() == 0)
    }
}

/// Whether the batch deletes the identifier.
pub open spec fn deletes(s: Seq<GraphRecord>, id: Seq<char>) -> bool {
    exists|i: int|
        0 <= i < s.len() && (#[trigger] s[i]) is Tombstone && s[i]->Tombstone_0.deleted_id@ == id
}

/// Whether the batch holds more than the one repository: another one, or a record outside the
/// graph of code.
pub open spec fn holds_more(s: Seq<GraphRecord>, id: Seq<char>) -> bool {
    exists|i: int|
        0 <= i < s.len() && ((is_repository(#[trigger] s[i]) && named(s[i]) != id) || !has_prefix(
            named(s[i]),
            "codegraph:"@,
        ))
}

proof fn lemma_known_here_only(s: Seq<GraphRecord>, facts: IdentityFacts, i: int)
    requires
        0 <= i < s.len(),
    ensures
        unsafe_at(s, facts.local_urls@, facts.unmatched@, i) <==> known_here_only(s[i], facts),
{
    if is_repository(s[i]) && s[i]->Node_0.repository_identity is Some {
        let p = s[i]->Node_0.repository_identity->0;
        assert(p@.identity_source == p.identity_source);
    }
}

proof fn lemma_holds_more(s: Seq<GraphRecord>, id: Seq<char>)
    ensures
        holds_more(s, id) <==> brings_other_repository(s, id) || brings_other_domain(s),
{
    if holds_more(s, id) {
        let i = choose|i: int|
            0 <= i < s.len() && ((is_repository(#[trigger] s[i]) && named(s[i]) != id)
                || !has_prefix(named(s[i]), "codegraph:"@));
        assert(repository_node(s[i]) == is_repository(s[i]));
        assert(crate::ir::record_id(s[i]) == named(s[i]));
    }
    if brings_other_repository(s, id) {
        let i = choose|i: int|
            0 <= i < s.len() && repository_node(#[trigger] s[i]) && crate::ir::record_id(s[i]) != id;
        assert(is_repository(s[i]) && named(s[i]) != id);
    }
    if brings_other_domain(s) {
        let i = choose|i: int|
            0 <= i < s.len() && !has_prefix(crate::ir::record_id(#[trigger] s[i]), "codegraph:"@);
        assert(!has_prefix(named(s[i]), "codegraph:"@));
    }
}

/// Whether a store that holds a repository of this machine alone would come to be shared.
pub open spec fn shares_its_store(s: Seq<GraphRecord>, stored: StoredRepositories) -> bool {
    exists|k: int|
        0 <= k < stored.local_path_ids@.len() && !deletes(
            s,
            (#[trigger] stored.local_path_ids@[k])@,
        ) && holds_more(s, stored.local_path_ids@[k]@)
}

/// Whether the `i`-th record is a repository of this machine alone that would come into company.
pub open spec fn joins_others(
    s: Seq<GraphRecord>,
    facts: IdentityFacts,
    stored: StoredRepositories,
    i: int,
) -> bool {
    &&& 0 <= i < s.len() && known_here_only(s[i], facts)
    &&& stored.multi_domain || holds_more(s, named(s[i])) || exists|k: int|
        0 <= k < stored.ids@.len() && (#[trigger] stored.ids@[k])@ != named(s[i])
}

/// A batch is refused for a repository that only this machine knows exactly where such a one would
/// share the store: with another repository, or with records outside the graph of code. A batch
/// that deletes the one in the store may bring others.
pub proof fn law_repositories_of_one_machine_stay_alone(
    s: Seq<GraphRecord>,
    facts: IdentityFacts,
    stored: StoredRepositories,
)
    ensures
        local_path_error(s, facts, stored) is Some <==> shares_its_store(s, stored) || exists|
            i: int,
        | #[trigger] joins_others(s, facts, stored, i),
        local_path_error(s, facts, stored) is Some ==> local_path_error(s, facts, stored)->0.code
            == ErrorCode::LocalPathIdentityUnsupported,
{
    let urls = facts.local_urls@;
    let un = facts.unmatched@;
    assert forall|i: int| 0 <= i < s.len() implies #[trigger] unsafe_at(s, urls, un, i)
        == known_here_only(s[i], facts) by {
        lemma_known_here_only(s, facts, i);
    }
    let ids = stored.local_path_ids@;
    if shares_local_store(s, ids) {
        let k = choose|k: int|
            0 <= k < ids.len() && !retracts(s, (#[trigger] ids[k])@) && (brings_other_repository(
                s,
                ids[k]@,
            ) || brings_other_domain(s));
        lemma_holds_more(s, ids[k]@);
        assert(retracts(s, ids[k]@) == deletes(s, ids[k]@));
        assert(shares_its_store(s, stored));
    }
    if shares_its_store(s, stored) {
        let k = choose|k: int|
            0 <= k < ids.len() && !deletes(s, (#[trigger] ids[k])@) && holds_more(s, ids[k]@);
        lemma_holds_more(s, ids[k]@);
        assert(shares_local_store(s, ids));
    }
    if exists|i: int| #[trigger] joins_others(s, facts, stored, i) {
        let i = choose|i: int| #[trigger] joins_others(s, facts, stored, i);
        lemma_holds_more(s, named(s[i]));
        assert(unsafe_at(s, urls, un, i));
        if exists|k: int|
            0 <= k < stored.ids@.len() && (#[trigger] stored.ids@[k])@ != named(s[i]) {
            assert(stores_other(stored.ids@, crate::ir::record_id(s[i])));
        }
    }
    if !shares_local_store(s, ids) && local_path_error(s, facts, stored) is Some {
        if exists|i: int, j: int|
            #[trigger] unsafe_at(s, urls, un, i) && #[trigger] unsafe_at(s, urls, un, j)
                && crate::ir::record_id(s[i]) != crate::ir::record_id(s[j]) {
            let (i, j) = choose|i: int, j: int|
                #[trigger] unsafe_at(s, urls, un, i) && #[trigger] unsafe_at(s, urls, un, j)
                    && crate::ir::record_id(s[i]) != crate::ir::record_id(s[j]);
            assert(known_here_only(s[i], facts));
            assert(known_here_only(s[j], facts));
            assert(is_repository(s[j]) && named(s[j]) != named(s[i]));
            assert(holds_more(s, named(s[i])));
            assert(joins_others(s, facts, stored, i));
        } else {
            let i = choose|i: int| #[trigger]
                unsafe_at(s, urls, un, i) && (stores_other(
                    stored.ids@,
                    crate::ir::record_id(s[i]),
                ) || brings_other_repository(s, crate::ir::record_id(s[i])) || stored.multi_domain
                    || brings_other_domain(s));
            lemma_holds_more(s, named(s[i]));
            assert(known_here_only(s[i], facts));
            assert(joins_others(s, facts, stored, i));
        }
    }
}

// ---------------------------------------------------------------------------
// Records that cannot be told apart
// ---------------------------------------------------------------------------

/// The commit of an edge, empty where it has none.
pub open spec fn edge_commit(r: GraphRecord) -> Seq<char> {
    if r->Edge_0.temporal is Some {
        r->Edge_0.temporal->0.git_commit@
    } else {
        Seq::empty()
    }
}

/// Whether the record is one that its identifier alone stands for.
pub open spec fn stands_by_name(r: GraphRecord) -> bool {
    r is Tombstone || (r is Node && r->Node_0.temporal is None)
}

/// Whether two records of a batch cannot be told apart when it is repeated: nodes of one name at
/// one commit, edges of one name, commit and content, and all else of one name.
pub open spec fn alike(s: Seq<GraphRecord>, payloads: Seq<Vec<u8>>, i: int, j: int) -> bool {
    let a = s[i];
    let b = s[j];
    ||| stands_by_name(a) && stands_by_name(b) && named(a) == named(b)
    ||| a is Node && b is Node && a->Node_0.temporal is Some && b->Node_0.temporal is Some
        && named(a) == named(b) && a->Node_0.temporal->0.git_commit@
        == b->Node_0.temporal->0.git_commit@
    ||| a is Edge && b is Edge && named(a) == named(b) && edge_commit(a) == edge_commit(b)
        && blake3_hex_of(payload_at(payloads, i)) == blake3_hex_of(payload_at(payloads, j))
}

/// Whether the names and commits of a record hold no zero character.
pub open spec fn plainly_named(r: GraphRecord) -> bool {
    &&& zero_free(named(r))
    &&& r is Node && r->Node_0.temporal is Some ==> zero_free(r->Node_0.temporal->0.git_commit@)
    &&& r is Edge ==> zero_free(edge_commit(r))
}

proof fn lemma_alike(s: Seq<GraphRecord>, payloads: Seq<Vec<u8>>, i: int, j: int)
    requires
        plainly_named(s[i]),
        plainly_named(s[j]),
    ensures
        key_of(s, payloads, i) == key_of(s, payloads, j) <==> alike(s, payloads, i, j),
{
    reveal_strlit("\0");
    reveal_strlit("node\0");
    reveal_strlit("edge\0");
    reveal_strlit("");
    assert(""@ =~= Seq::<char>::empty());
    let a = s[i];
    let b = s[j];
    let x = key_of(s, payloads, i);
    let y = key_of(s, payloads, j);
    assert("node\0"@ =~= "node\0"@.take(4) + "\0"@);
    assert("edge\0"@ =~= "edge\0"@.take(4) + "\0"@);
    if stands_by_name(a) {
        assert(x == named(a));
        if !stands_by_name(b) {
            assert(y[4] == '\0');
        }
    } else if stands_by_name(b) {
        assert(y == named(b));
        assert(x[4] == '\0');
    } else if a is Node && b is Node {
        let c = a->Node_0.temporal->0.git_commit@;
        let d = b->Node_0.temporal->0.git_commit@;
        assert(x =~= "node\0"@ + (named(a) + "\0"@ + c));
        assert(y =~= "node\0"@ + (named(b) + "\0"@ + d));
        if x == y {
            assert(x.skip(5) =~= named(a) + "\0"@ + c);
            assert(y.skip(5) =~= named(b) + "\0"@ + d);
            lemma_split(named(a), c, named(b), d);
        }
    } else if a is Edge && b is Edge {
        let c = edge_commit(a);
        let d = edge_commit(b);
        let g = blake3_hex_of(payload_at(payloads, i));
        let h = blake3_hex_of(payload_at(payloads, j));
        assert(x =~= "edge\0"@ + (named(a) + "\0"@ + (c + "\0"@ + g)));
        assert(y =~= "edge\0"@ + (named(b) + "\0"@ + (d + "\0"@ + h)));
        if x == y {
            assert(x.skip(5) =~= named(a) + "\0"@ + (c + "\0"@ + g));
            assert(y.skip(5) =~= named(b) + "\0"@ + (d + "\0"@ + h));
            lemma_split(named(a), c + "\0"@ + g, named(b), d + "\0"@ + h);
            lemma_split(c, g, d, h);
        }
    } else {
        assert(x[0] != y[0]);
    }
}

/// A batch is refused exactly where two of its records could not be told apart when it is
/// repeated.
pub proof fn law_repeated_batches_must_be_recognized(s: Seq<GraphRecord>, payloads: Seq<Vec<u8>>)
    requires
        forall|i: int| 0 <= i < s.len() ==> plainly_named(#[trigger] s[i]),
    ensures
        recovery_key_error(s, payloads) is Some <==> exists|i: int, j: int|
            0 <= i < j < s.len() && #[trigger] alike(s, payloads, i, j),
        recovery_key_error(s, payloads) is Some ==> recovery_key_error(s, payloads)->0.code
            == ErrorCode::IdempotencyConflict,
{
    if recovery_key_error(s, payloads) is Some {
        crate::ingest_rules::law_ambiguous_keys_are_duplicates(s, payloads);
        let (i, j) = choose|i: int, j: int|
            0 <= i < j < s.len() && #[trigger] key_of(s, payloads, i) == #[trigger] key_of(
                s,
                payloads,
                j,
            );
        assert(plainly_named(s[i]) && plainly_named(s[j]));
        lemma_alike(s, payloads, i, j);
        assert(alike(s, payloads, i, j));
    }
    if exists|i: int, j: int| 0 <= i < j < s.len() && #[trigger] alike(s, payloads, i, j) {
        let (i, j) = choose|i: int, j: int|
            0 <= i < j < s.len() && #[trigger] alike(s, payloads, i, j);
        assert(plainly_named(s[i]) && plainly_named(s[j]));
        lemma_alike(s, payloads, i, j);
        assert(key_of(s, payloads, i) == key_of(s, payloads, j));
    }
}

/// Whether two records are the same patch under two statuses.
pub open spec fn rewrites_status(r: GraphRecord, o: GraphRecord) -> bool {
    &&& r is Node && o is Node && named(r) == named(o)
    &&& r->Node_0.kind == NodeKind::PatchArtifact && o->Node_0.kind == NodeKind::PatchArtifact
    &&& r->Node_0.patch_status is Some && o->Node_0.patch_status is Some
    &&& r->Node_0.patch_status->0@ != o->Node_0.patch_status->0@
}

proof fn lemma_first_with_id(current: Seq<GraphRecord>, id: Seq<char>, k: int)
    requires
        0 <= k < current.len(),
        named(current[k]) == id,
        forall|m: int| 0 <= m < k ==> named(#[trigger] current[m]) != id,
    ensures
        crate::evidence_edges::first_with_id(current, id) == Some(current[k]),
    decreases current.len(),
{
    assert(crate::ir::record_id(current[0]) == named(current[0]));
    if k > 0 {
        let rest = current.drop_first();
        assert(named(current[0]) != id);
        assert(rest[k - 1] == current[k]);
        assert forall|m: int| 0 <= m < k - 1 implies named(#[trigger] rest[m]) != id by {
            assert(rest[m] == current[m + 1]);
        }
        lemma_first_with_id(rest, id, k - 1);
    }
}

proof fn lemma_pinned(s: Seq<GraphRecord>, current: Seq<GraphRecord>, i: int, k: int)
    requires
        0 <= i < s.len(),
        0 <= k < current.len(),
        rewrites_status(s[i], current[k]),
        forall|m: int| 0 <= m < k ==> named(#[trigger] current[m]) != named(s[i]),
    ensures
        pinned_errors(s, current) is Some,
        pinned_errors(s, current)->0.code == ErrorCode::PatchStatusPinned,
    decreases s.len(),
{
    lemma_first_with_id(current, named(s[i]), k);
    assert(crate::ir::record_id(s[i]) == named(s[i]));
    if i > 0 && crate::record_rules::pinned_error(
        s[0],
        crate::evidence_edges::first_with_id(current, crate::ir::record_id(s[0])),
    ) is None {
        assert(s.drop_first()[i - 1] == s[i]);
        lemma_pinned(s.drop_first(), current, i - 1, k);
    }
}

/// A batch whose patches are sound in themselves is refused where it gives a patch of the store
/// another status.
pub proof fn law_the_status_of_a_patch_stays(
    s: Seq<GraphRecord>,
    current: Seq<GraphRecord>,
    i: int,
    k: int,
)
    requires
        artifact_errors(s) is None,
        0 <= i < s.len(),
        0 <= k < current.len(),
        rewrites_status(s[i], current[k]),
        forall|m: int| 0 <= m < k ==> named(#[trigger] current[m]) != named(s[i]),
    ensures
        artifact_domain_error(s, current) is Some,
        artifact_domain_error(s, current)->0.code == ErrorCode::PatchStatusPinned,
{
    lemma_pinned(s, current, i, k);
}

/// A directory that was asked for is watched if it is there, and warned of if it is not; the usual
/// one is watched only where none was asked for, and never warned of.
pub proof fn law_which_directory_is_watched(
    agent: Seq<char>,
    asked: Option<WatchDir<'_>>,
    usual: Option<WatchDir<'_>>,
)
    ensures
        asked is Some && asked->0.exists ==> watched(asked, usual) == Some(asked->0.path@)
            && missing_warning(agent, asked) is None,
        asked is Some && !asked->0.exists ==> watched(asked, usual) is None && missing_warning(
            agent,
            asked,
        ) is Some,
        asked is None && usual is Some && usual->0.exists ==> watched(asked, usual) == Some(
            usual->0.path@,
        ),
        asked is None && (usual is None || !usual->0.exists) ==> watched(asked, usual) is None,
        asked is None ==> missing_warning(agent, asked) is None,
{
}

} // verus!

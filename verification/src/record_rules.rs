//! What verification and artifact records must carry.

use vstd::prelude::*;
use vstd::string::*;
use vstd::utf8::encode_utf8;

use crate::api_error::{bad, error_of, missing, plain_error, ApiError, ErrorCode, ErrorView};
use crate::evidence_edges::{filled, find_first, first_with_id, is_filled};
use crate::ir::{
    node_kind_name, ARTIFACT_SCHEMA_VERSION, GraphRecord, NodeKind, NodeRecord, NodeView,
    OutputHandle, OutputHandleView, VERIFICATION_SCHEMA_VERSION,
};
use crate::outside::rfc3339_instant_of;
use crate::text::{
    byte_len, concat3, concat5, concat7, decimal, decimal_seq, has_prefix, opt_is, starts_with,
    str_eq,
};
use crate::time::is_rfc3339;

verus! {

/// The most bytes that may be carried in line.
pub const INLINE_PAYLOAD_CEILING: u64 = 16384;

// ---------------------------------------------------------------------------
// Verification records
// ---------------------------------------------------------------------------

/// The number of bytes that a handle carries in line.
pub open spec fn inline_bytes(inline: Option<Seq<char>>) -> nat {
    match inline {
        Some(s) => encode_utf8(s).len(),
        None => 0,
    }
}

/// What is wrong with a handle of captured output.
pub open spec fn output_handle_error(field: Seq<char>, h: OutputHandleView) -> Option<ErrorView> {
    if h.hash.len() == 0 {
        Some(bad("verification-domain "@ + field + ".hash must not be empty"@))
    } else if inline_bytes(h.inline) > h.bytes {
        Some(
            bad("verification-domain "@ + field + ".bytes must be >= inline payload length"@),
        )
    } else if inline_bytes(h.inline) > INLINE_PAYLOAD_CEILING || (h.inline is Some && h.bytes
        > INLINE_PAYLOAD_CEILING) {
        Some(
            plain_error(
                ErrorCode::InlinePayloadExceedsCeiling,
                "verification-domain "@ + field
                    + ".inline must be None when bytes exceeds the 16 KiB ceiling; demote to handle-only before writing"@,
            ),
        )
    } else {
        None
    }
}

/// Checks a handle of captured output.
pub fn validate_verification_output_handle(field: &str, h: &OutputHandle) -> (r: Result<
    (),
    ApiError,
>)
    ensures
        error_of(r) == output_handle_error(field@, h@),
{
    if h.hash.as_str().is_empty() {
        return Err(
            ApiError::bad_request(
                concat3("verification-domain ", field, ".hash must not be empty"),
            ),
        );
    }
    let inline: u64 = match &h.inline {
        Some(s) => byte_len(s.as_str()) as u64,
        None => 0,
    };
    if inline > h.bytes {
        return Err(
            ApiError::bad_request(
                concat3("verification-domain ", field, ".bytes must be >= inline payload length"),
            ),
        );
    }
    if inline > INLINE_PAYLOAD_CEILING || (h.inline.is_some() && h.bytes > INLINE_PAYLOAD_CEILING) {
        return Err(
            ApiError::inline_payload_exceeds_ceiling(
                concat3(
                    "verification-domain ",
                    field,
                    ".inline must be None when bytes exceeds the 16 KiB ceiling; demote to handle-only before writing",
                ),
            ),
        );
    }
    Ok(())
}

/// Whether nodes of the kind belong to the verification domain.
pub open spec fn verification_kind_of(kind: NodeKind) -> bool {
    kind == NodeKind::CommandRun || kind == NodeKind::Verification || kind == NodeKind::TestRun
        || kind == NodeKind::CIStatus || kind == NodeKind::BenchmarkRun || kind
        == NodeKind::CoverageReport || kind == NodeKind::ProofResult
}

fn is_verification_kind(kind: NodeKind) -> (r: bool)
    ensures
        r == verification_kind_of(kind),
{
    match kind {
        NodeKind::CommandRun
        | NodeKind::Verification
        | NodeKind::TestRun
        | NodeKind::CIStatus
        | NodeKind::BenchmarkRun
        | NodeKind::CoverageReport
        | NodeKind::ProofResult => true,
        _ => false,
    }
}

/// Whether the node belongs to the domain, by its identifier or by what it declares.
pub open spec fn in_domain(n: NodeView, prefix: Seq<char>, domain: Seq<char>) -> bool {
    has_prefix(n.id, prefix) || n.domain == Some(domain)
}

/// Whether a handle is there and has a hash.
pub open spec fn has_hash(h: Option<OutputHandleView>) -> bool {
    h is Some && h->0.hash.len() > 0
}

/// What is wrong with an optional handle.
pub open spec fn opt_handle_error(field: Seq<char>, h: Option<OutputHandleView>) -> Option<
    ErrorView,
> {
    match h {
        Some(h) => output_handle_error(field, h),
        None => None,
    }
}

/// What is wrong with a verification record.
pub open spec fn verification_error(n: NodeView) -> Option<ErrorView> {
    if !in_domain(n, "verification:v1:"@, "verification"@) {
        None
    } else if n.schema_version != VERIFICATION_SCHEMA_VERSION {
        Some(
            bad(
                "verification node '"@ + n.id + "' has schema_version "@ + decimal_seq(
                    n.schema_version as nat,
                ) + " but only version "@ + decimal_seq(VERIFICATION_SCHEMA_VERSION as nat)
                    + " is accepted"@,
            ),
        )
    } else if !verification_kind_of(n.kind) {
        Some(
            bad(
                "node kind '"@ + node_kind_name(n.kind)
                    + "' is not permitted under the verification domain; allowed kinds: CommandRun, Verification, TestRun, CIStatus, BenchmarkRun, CoverageReport, ProofResult"@,
            ),
        )
    } else if n.executed_at is Some && rfc3339_instant_of(n.executed_at->0) is None {
        Some(
            bad(
                "verification node '"@ + n.id + "' has invalid executed_at timestamp '"@
                    + n.executed_at->0 + "'; must be RFC 3339"@,
            ),
        )
    } else if !filled(n.source_artifact_hash) && !filled(n.source_artifact_path) && !has_hash(
        n.stdout_handle,
    ) {
        Some(
            plain_error(
                ErrorCode::MissingEvidenceHandle,
                "verification-domain records must carry an evidence handle (source_artifact_hash, source_artifact_path, or stdout_handle.hash)"@,
            ),
        )
    } else if opt_handle_error("stdout_handle"@, n.stdout_handle) is Some {
        opt_handle_error("stdout_handle"@, n.stdout_handle)
    } else {
        opt_handle_error("stderr_handle"@, n.stderr_handle)
    }
}

/// What is wrong with the verification records of a batch: the first error.
pub open spec fn verification_errors(s: Seq<GraphRecord>) -> Option<ErrorView>
    decreases s.len(),
{
    if s.len() == 0 {
        None
    } else {
        let first = match s[0] {
            GraphRecord::Node(n) => verification_error(n@),
            _ => None,
        };
        match first {
            Some(e) => Some(e),
            None => verification_errors(s.drop_first()),
        }
    }
}

fn handle_has_hash(h: &Option<OutputHandle>) -> (r: bool)
    ensures
        r == has_hash(match *h {
            Some(x) => Some(x@),
            None => None,
        }),
{
    match h {
        Some(h) => !h.hash.as_str().is_empty(),
        None => false,
    }
}

fn check_handle(field: &str, h: &Option<OutputHandle>) -> (r: Result<(), ApiError>)
    ensures
        error_of(r) == opt_handle_error(
            field@,
            match *h {
                Some(x) => Some(x@),
                None => None,
            },
        ),
{
    match h {
        Some(h) => validate_verification_output_handle(field, h),
        None => Ok(()),
    }
}

fn check_verification(n: &NodeRecord) -> (r: Result<(), ApiError>)
    ensures
        error_of(r) == verification_error(n@),
{
    if !starts_with(n.id.as_str(), "verification:v1:") && !opt_is(&n.domain, "verification") {
        return Ok(());
    }
    if n.schema_version != VERIFICATION_SCHEMA_VERSION {
        return Err(
            ApiError::bad_request(
                concat7(
                    "verification node '",
                    n.id.as_str(),
                    "' has schema_version ",
                    decimal(n.schema_version as u64).as_str(),
                    " but only version ",
                    decimal(VERIFICATION_SCHEMA_VERSION as u64).as_str(),
                    " is accepted",
                ),
            ),
        );
    }
    if !is_verification_kind(n.kind) {
        return Err(
            ApiError::bad_request(
                concat3(
                    "node kind '",
                    n.kind.as_str(),
                    "' is not permitted under the verification domain; allowed kinds: CommandRun, Verification, TestRun, CIStatus, BenchmarkRun, CoverageReport, ProofResult",
                ),
            ),
        );
    }
    match &n.executed_at {
        Some(t) => {
            if !is_rfc3339(t.as_str()) {
                return Err(
                    ApiError::bad_request(
                        concat5(
                            "verification node '",
                            n.id.as_str(),
                            "' has invalid executed_at timestamp '",
                            t.as_str(),
                            "'; must be RFC 3339",
                        ),
                    ),
                );
            }
        },
        None => {},
    }
    if !is_filled(&n.source_artifact_hash) && !is_filled(&n.source_artifact_path)
        && !handle_has_hash(&n.stdout_handle) {
        return Err(
            ApiError::new(
                ErrorCode::MissingEvidenceHandle,
                "verification-domain records must carry an evidence handle (source_artifact_hash, source_artifact_path, or stdout_handle.hash)".to_owned(),
            ),
        );
    }
    match check_handle("stdout_handle", &n.stdout_handle) {
        Err(e) => {
            return Err(e);
        },
        Ok(_) => {},
    }
    check_handle("stderr_handle", &n.stderr_handle)
}

/// Checks the verification records of a batch: each has a known kind and version, a
/// handle to its evidence, and carries no more in line than is allowed.
pub fn validate_verification_domain_records(records: &Vec<GraphRecord>) -> (r: Result<(), ApiError>)
    ensures
        error_of(r) == verification_errors(records@),
{
    let ghost s = records@;
    let mut i: usize = 0;
    assert(s.skip(0) =~= s);
    while i < records.len()
        invariant
            i <= records@.len(),
            s == records@,
            verification_errors(s) == verification_errors(s.skip(i as int)),
        decreases records@.len() - i,
    {
        proof {
            assert(s.skip(i as int)[0] == s[i as int]);
            assert(s.skip(i as int).drop_first() =~= s.skip(i + 1));
        }
        match &records[i] {
            GraphRecord::Node(n) => {
                match check_verification(n) {
                    Err(e) => {
                        return Err(e);
                    },
                    Ok(_) => {},
                }
            },
            _ => {},
        }
        i = i + 1;
    }
    Ok(())
}

proof fn lemma_verification_errors(s: Seq<GraphRecord>, i: int)
    requires
        verification_errors(s) is None,
        0 <= i < s.len(),
        s[i] is Node,
    ensures
        verification_error(s[i]->Node_0@) is None,
    decreases s.len(),
{
    if i > 0 {
        assert(s.drop_first()[i - 1] == s[i]);
        lemma_verification_errors(s.drop_first(), i - 1);
    }
}

/// Every verification record of an accepted batch carries a handle to its evidence.
pub proof fn law_verification_records_have_evidence(s: Seq<GraphRecord>, i: int)
    requires
        verification_errors(s) is None,
        0 <= i < s.len(),
        s[i] is Node,
        in_domain(s[i]->Node_0@, "verification:v1:"@, "verification"@),
    ensures
        ({
            let n = s[i]->Node_0@;
            filled(n.source_artifact_hash) || filled(n.source_artifact_path) || has_hash(
                n.stdout_handle,
            )
        }),
{
    lemma_verification_errors(s, i);
}

/// No verification record of an accepted batch carries more than the ceiling in line.
pub proof fn law_verification_output_respects_ceiling(s: Seq<GraphRecord>, i: int)
    requires
        verification_errors(s) is None,
        0 <= i < s.len(),
        s[i] is Node,
        in_domain(s[i]->Node_0@, "verification:v1:"@, "verification"@),
    ensures
        ({
            let n = s[i]->Node_0@;
            &&& n.stdout_handle is Some ==> inline_bytes(n.stdout_handle->0.inline)
                <= INLINE_PAYLOAD_CEILING
            &&& n.stderr_handle is Some ==> inline_bytes(n.stderr_handle->0.inline)
                <= INLINE_PAYLOAD_CEILING
        }),
{
    lemma_verification_errors(s, i);
}

// ---------------------------------------------------------------------------
// Artifact records
// ---------------------------------------------------------------------------

/// Whether the text is a patch status.
pub open spec fn patch_status_known(s: Seq<char>) -> bool {
    s == "applied_clean"@ || s == "applied_with_conflicts"@ || s == "invalid_syntax"@ || s
        == "invalid_no_base"@ || s == "rejected_validation"@ || s == "unverified"@ || s
        == "superseded"@
}

fn is_patch_status(s: &str) -> (r: bool)
    ensures
        r == patch_status_known(s@),
{
    str_eq(s, "applied_clean") || str_eq(s, "applied_with_conflicts") || str_eq(s, "invalid_syntax")
        || str_eq(s, "invalid_no_base") || str_eq(s, "rejected_validation") || str_eq(
        s,
        "unverified",
    ) || str_eq(s, "superseded")
}

/// The first field that an artifact record lacks after its patch: the summary and
/// where it came from.
pub open spec fn unset_origin(n: NodeView) -> Option<Seq<char>> {
    if !filled(n.validation_summary) {
        Some("validation_summary"@)
    } else if !filled(n.source_artifact_path) {
        Some("source_artifact_path"@)
    } else if !filled(n.source_artifact_hash) {
        Some("source_artifact_hash"@)
    } else if !filled(n.producer_session_id) {
        Some("producer_session_id"@)
    } else if !filled(n.valid_time) {
        Some("valid_time"@)
    } else {
        None
    }
}

/// What is wrong with the patch that an artifact record carries.
pub open spec fn patch_error(n: NodeView) -> Option<ErrorView> {
    if !filled(n.patch_status) {
        Some(missing("patch_status"@))
    } else if !patch_status_known(n.patch_status->0) {
        Some(
            bad(
                "PatchArtifact.patch_status '"@ + n.patch_status->0
                    + "' is not recognized; expected one of: applied_clean, applied_with_conflicts, invalid_syntax, invalid_no_base, rejected_validation, unverified, superseded"@,
            ),
        )
    } else if !filled(n.base_commit) && n.unknown_base_reason != Some("unknown_base"@) {
        Some(missing("unknown_base_reason (required when base_commit is null)"@))
    } else if n.target_files is None {
        Some(missing("target_files"@))
    } else if !filled(n.patch_bytes_hash) {
        Some(missing("patch_bytes_hash"@))
    } else if n.patch_bytes_size is None {
        Some(missing("patch_bytes_size"@))
    } else if n.patch_handle is None {
        Some(missing("patch_handle"@))
    } else if n.patch_handle->0.path.len() == 0 {
        Some(missing("patch_handle.path"@))
    } else if n.patch_handle->0.inline is Some && inline_bytes(n.patch_handle->0.inline)
        > n.patch_bytes_size->0 {
        Some(bad("PatchArtifact.patch_bytes_size must be >= patch_handle.inline length"@))
    } else if n.patch_handle->0.inline is Some && (inline_bytes(n.patch_handle->0.inline)
        > INLINE_PAYLOAD_CEILING || n.patch_bytes_size->0 > INLINE_PAYLOAD_CEILING) {
        Some(
            plain_error(
                ErrorCode::InlinePayloadExceedsCeiling,
                "PatchArtifact.patch_handle.inline must be None when patch bytes exceed the 16 KiB ceiling; demote to handle-only before writing"@,
            ),
        )
    } else {
        None
    }
}

/// What is wrong with the times of an artifact record.
pub open spec fn artifact_time_error(n: NodeView) -> Option<ErrorView> {
    if rfc3339_instant_of(n.valid_time->0) is None {
        Some(
            bad(
                "PatchArtifact.valid_time '"@ + n.valid_time->0
                    + "' is not a valid RFC 3339 timestamp"@,
            ),
        )
    } else if n.valid_time_source != Some("produced_at"@) {
        Some(bad("PatchArtifact.valid_time_source must equal produced_at"@))
    } else if !filled(n.ingested_at) {
        Some(missing("ingested_at"@))
    } else if rfc3339_instant_of(n.ingested_at->0) is None {
        Some(
            bad(
                "PatchArtifact.ingested_at '"@ + n.ingested_at->0
                    + "' is not a valid RFC 3339 timestamp"@,
            ),
        )
    } else {
        None
    }
}

/// What is wrong with an artifact record.
pub open spec fn artifact_error(n: NodeView) -> Option<ErrorView> {
    if !in_domain(n, "artifact:v1:"@, "artifact"@) {
        None
    } else if n.schema_version != ARTIFACT_SCHEMA_VERSION {
        Some(
            bad(
                "artifact node '"@ + n.id + "' has schema_version "@ + decimal_seq(
                    n.schema_version as nat,
                ) + " but only version "@ + decimal_seq(ARTIFACT_SCHEMA_VERSION as nat)
                    + " is accepted"@,
            ),
        )
    } else if n.kind != NodeKind::PatchArtifact {
        Some(
            bad(
                "node kind '"@ + node_kind_name(n.kind)
                    + "' is not permitted under the artifact domain; allowed kind: PatchArtifact"@,
            ),
        )
    } else if n.domain != Some("artifact"@) {
        Some(missing("domain (PatchArtifact requires domain artifact)"@))
    } else if patch_error(n) is Some {
        patch_error(n)
    } else if unset_origin(n) is Some {
        Some(missing(unset_origin(n)->0))
    } else {
        artifact_time_error(n)
    }
}

/// What is wrong with the artifact records of a batch: the first error.
pub open spec fn artifact_errors(s: Seq<GraphRecord>) -> Option<ErrorView>
    decreases s.len(),
{
    if s.len() == 0 {
        None
    } else {
        let first = match s[0] {
            GraphRecord::Node(n) => artifact_error(n@),
            _ => None,
        };
        match first {
            Some(e) => Some(e),
            None => artifact_errors(s.drop_first()),
        }
    }
}

/// What is wrong with the patch status of a record, when the stored record is this
/// one: a status, once stored, stays.
pub open spec fn pinned_error(r: GraphRecord, stored: Option<GraphRecord>) -> Option<ErrorView> {
    match (r, stored) {
        (GraphRecord::Node(n), Some(GraphRecord::Node(o))) => if n.kind == NodeKind::PatchArtifact
            && o.kind == NodeKind::PatchArtifact && n.patch_status is Some && o.patch_status is Some
            && n.patch_status->0@ != o.patch_status->0@ {
            Some(
                plain_error(
                    ErrorCode::PatchStatusPinned,
                    "PatchArtifact.patch_status is append-only for '"@ + n.id@
                        + "'; existing status '"@ + o.patch_status->0@
                        + "' cannot be rewritten to '"@ + n.patch_status->0@ + "'"@,
                ),
            )
        } else {
            None
        },
        _ => None,
    }
}

/// What is wrong with the patch statuses of a batch: the first error.
pub open spec fn pinned_errors(s: Seq<GraphRecord>, current: Seq<GraphRecord>) -> Option<ErrorView>
    decreases s.len(),
{
    if s.len() == 0 {
        None
    } else {
        match pinned_error(s[0], first_with_id(current, crate::ir::record_id(s[0]))) {
            Some(e) => Some(e),
            None => pinned_errors(s.drop_first(), current),
        }
    }
}

fn find_unset_origin(n: &NodeRecord) -> (r: Option<&'static str>)
    ensures
        crate::text::opt_str_view(r) == unset_origin(n@),
{
    if !is_filled(&n.validation_summary) {
        Some("validation_summary")
    } else if !is_filled(&n.source_artifact_path) {
        Some("source_artifact_path")
    } else if !is_filled(&n.source_artifact_hash) {
        Some("source_artifact_hash")
    } else if !is_filled(&n.producer_session_id) {
        Some("producer_session_id")
    } else if !is_filled(&n.valid_time) {
        Some("valid_time")
    } else {
        None
    }
}

/// The value of a field that must be there and not be empty.
pub fn required_str<'a>(value: Option<&'a str>, field: &str) -> (r: Result<&'a str, ApiError>)
    ensures
        match r {
            Ok(s) => value == Some(s) && s@.len() > 0,
            Err(e) => !(value is Some && value->0@.len() > 0) && e@ == missing(field@),
        },
{
    match value {
        Some(s) => if s.is_empty() {
            Err(ApiError::missing_field(field))
        } else {
            Ok(s)
        },
        None => Err(ApiError::missing_field(field)),
    }
}

fn check_patch(n: &NodeRecord) -> (r: Result<(), ApiError>)
    ensures
        error_of(r) == patch_error(n@),
{
    let status = match required_str(crate::text::as_opt_str(&n.patch_status), "patch_status") {
        Err(e) => {
            return Err(e);
        },
        Ok(s) => s,
    };
    if !is_patch_status(status) {
        return Err(
            ApiError::bad_request(
                concat3(
                    "PatchArtifact.patch_status '",
                    status,
                    "' is not recognized; expected one of: applied_clean, applied_with_conflicts, invalid_syntax, invalid_no_base, rejected_validation, unverified, superseded",
                ),
            ),
        );
    }
    if !is_filled(&n.base_commit) && !opt_is(&n.unknown_base_reason, "unknown_base") {
        return Err(
            ApiError::missing_field("unknown_base_reason (required when base_commit is null)"),
        );
    }
    if n.target_files.is_none() {
        return Err(ApiError::missing_field("target_files"));
    }
    if !is_filled(&n.patch_bytes_hash) {
        return Err(ApiError::missing_field("patch_bytes_hash"));
    }
    let size: u64 = match n.patch_bytes_size {
        Some(x) => x,
        None => {
            return Err(ApiError::missing_field("patch_bytes_size"));
        },
    };
    let handle = match &n.patch_handle {
        Some(h) => h,
        None => {
            return Err(ApiError::missing_field("patch_handle"));
        },
    };
    if handle.path.as_str().is_empty() {
        return Err(ApiError::missing_field("patch_handle.path"));
    }
    match &handle.inline {
        Some(s) => {
            let inline: u64 = byte_len(s.as_str()) as u64;
            if inline > size {
                return Err(
                    ApiError::bad_request(
                        "PatchArtifact.patch_bytes_size must be >= patch_handle.inline length".to_owned(),
                    ),
                );
            }
            if inline > INLINE_PAYLOAD_CEILING || size > INLINE_PAYLOAD_CEILING {
                return Err(
                    ApiError::inline_payload_exceeds_ceiling(
                        "PatchArtifact.patch_handle.inline must be None when patch bytes exceed the 16 KiB ceiling; demote to handle-only before writing".to_owned(),
                    ),
                );
            }
        },
        None => {},
    }
    Ok(())
}

fn check_artifact_times(n: &NodeRecord) -> (r: Result<(), ApiError>)
    requires
        n.valid_time is Some,
    ensures
        error_of(r) == artifact_time_error(n@),
{
    match &n.valid_time {
        Some(t) => {
            if !is_rfc3339(t.as_str()) {
                return Err(
                    ApiError::bad_request(
                        concat3(
                            "PatchArtifact.valid_time '",
                            t.as_str(),
                            "' is not a valid RFC 3339 timestamp",
                        ),
                    ),
                );
            }
        },
        None => {},
    }
    if !opt_is(&n.valid_time_source, "produced_at") {
        return Err(
            ApiError::bad_request(
                "PatchArtifact.valid_time_source must equal produced_at".to_owned(),
            ),
        );
    }
    let t = match required_str(crate::text::as_opt_str(&n.ingested_at), "ingested_at") {
        Err(e) => {
            return Err(e);
        },
        Ok(t) => t,
    };
    if !is_rfc3339(t) {
        return Err(
            ApiError::bad_request(
                concat3(
                    "PatchArtifact.ingested_at '",
                    t,
                    "' is not a valid RFC 3339 timestamp",
                ),
            ),
        );
    }
    Ok(())
}

fn check_artifact(n: &NodeRecord) -> (r: Result<(), ApiError>)
    ensures
        error_of(r) == artifact_error(n@),
{
    if !starts_with(n.id.as_str(), "artifact:v1:") && !opt_is(&n.domain, "artifact") {
        return Ok(());
    }
    if n.schema_version != ARTIFACT_SCHEMA_VERSION {
        return Err(
            ApiError::bad_request(
                concat7(
                    "artifact node '",
                    n.id.as_str(),
                    "' has schema_version ",
                    decimal(n.schema_version as u64).as_str(),
                    " but only version ",
                    decimal(ARTIFACT_SCHEMA_VERSION as u64).as_str(),
                    " is accepted",
                ),
            ),
        );
    }
    if n.kind != NodeKind::PatchArtifact {
        return Err(
            ApiError::bad_request(
                concat3(
                    "node kind '",
                    n.kind.as_str(),
                    "' is not permitted under the artifact domain; allowed kind: PatchArtifact",
                ),
            ),
        );
    }
    if !opt_is(&n.domain, "artifact") {
        return Err(ApiError::missing_field("domain (PatchArtifact requires domain artifact)"));
    }
    match check_patch(n) {
        Err(e) => {
            return Err(e);
        },
        Ok(_) => {},
    }
    match find_unset_origin(n) {
        Some(f) => {
            return Err(ApiError::missing_field(f));
        },
        None => {},
    }
    check_artifact_times(n)
}

fn check_pinned(r: &GraphRecord, current: &Vec<GraphRecord>) -> (x: Result<(), ApiError>)
    ensures
        error_of(x) == pinned_error(*r, first_with_id(current@, crate::ir::record_id(*r))),
{
    let n = match r {
        GraphRecord::Node(n) => n,
        _ => {
            return Ok(());
        },
    };
    match (find_first(current, n.id.as_str()), &n.patch_status) {
        (Some(GraphRecord::Node(o)), Some(new)) => {
            match &o.patch_status {
                Some(old_status) => {
                    if n.kind == NodeKind::PatchArtifact && o.kind == NodeKind::PatchArtifact
                        && !str_eq(new.as_str(), old_status.as_str()) {
                        return Err(
                            ApiError::patch_status_pinned(
                                concat7(
                                    "PatchArtifact.patch_status is append-only for '",
                                    n.id.as_str(),
                                    "'; existing status '",
                                    old_status.as_str(),
                                    "' cannot be rewritten to '",
                                    new.as_str(),
                                    "'",
                                ),
                            ),
                        );
                    }
                    Ok(())
                },
                None => Ok(()),
            }
        },
        _ => Ok(()),
    }
}

/// What is wrong with the artifact records of a batch: the records first, then the
/// statuses that the store already has.
pub open spec fn artifact_domain_error(s: Seq<GraphRecord>, current: Seq<GraphRecord>) -> Option<
    ErrorView,
> {
    match artifact_errors(s) {
        Some(e) => Some(e),
        None => pinned_errors(s, current),
    }
}

/// Checks the artifact records of a batch: each is complete, and none rewrites a patch
/// status that the store has.
pub fn validate_artifact_domain_records(
    records: &Vec<GraphRecord>,
    current: &Vec<GraphRecord>,
) -> (r: Result<(), ApiError>)
    ensures
        error_of(r) == artifact_domain_error(records@, current@),
{
    let ghost s = records@;
    let ghost c = current@;
    let mut i: usize = 0;
    assert(s.skip(0) =~= s);
    while i < records.len()
        invariant
            i <= records@.len(),
            s == records@,
            artifact_errors(s) == artifact_errors(s.skip(i as int)),
        decreases records@.len() - i,
    {
        proof {
            assert(s.skip(i as int)[0] == s[i as int]);
            assert(s.skip(i as int).drop_first() =~= s.skip(i + 1));
        }
        match &records[i] {
            GraphRecord::Node(n) => {
                match check_artifact(n) {
                    Err(e) => {
                        return Err(e);
                    },
                    Ok(_) => {},
                }
            },
            _ => {},
        }
        i = i + 1;
    }
    let mut k: usize = 0;
    while k < records.len()
        invariant
            k <= records@.len(),
            s == records@,
            c == current@,
            artifact_errors(s) is None,
            pinned_errors(s, c) == pinned_errors(s.skip(k as int), c),
        decreases records@.len() - k,
    {
        proof {
            assert(s.skip(k as int)[0] == s[k as int]);
            assert(s.skip(k as int).drop_first() =~= s.skip(k + 1));
        }
        match check_pinned(&records[k], current) {
            Err(e) => {
                return Err(e);
            },
            Ok(_) => {},
        }
        k = k + 1;
    }
    Ok(())
}

/// A patch status that the store has is not rewritten by an accepted batch.
pub proof fn law_patch_status_is_pinned(s: Seq<GraphRecord>, current: Seq<GraphRecord>, i: int)
    requires
        artifact_domain_error(s, current) is None,
        0 <= i < s.len(),
        s[i] is Node,
        s[i]->Node_0.kind == NodeKind::PatchArtifact,
        s[i]->Node_0.patch_status is Some,
        first_with_id(current, s[i]->Node_0.id@) matches Some(GraphRecord::Node(o)) && o.kind
            == NodeKind::PatchArtifact && o.patch_status is Some,
    ensures
        first_with_id(current, s[i]->Node_0.id@)->0->Node_0.patch_status->0@
            == s[i]->Node_0.patch_status->0@,
{
    lemma_pinned_errors(s, current, i);
}

proof fn lemma_pinned_errors(s: Seq<GraphRecord>, current: Seq<GraphRecord>, i: int)
    requires
        pinned_errors(s, current) is None,
        0 <= i < s.len(),
    ensures
        pinned_error(s[i], first_with_id(current, crate::ir::record_id(s[i]))) is None,
    decreases s.len(),
{
    if i > 0 {
        assert(s.drop_first()[i - 1] == s[i]);
        lemma_pinned_errors(s.drop_first(), current, i - 1);
    }
}

} // verus!

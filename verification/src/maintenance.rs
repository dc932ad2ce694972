//! Keeping a store: validation, and the directories that are watched.

use vstd::prelude::*;
use vstd::string::*;

use crate::text::{concat2, concat5, concat7, decimal, decimal_seq, opt_str_view, opt_view};

verus! {

// ---------------------------------------------------------------------------
// Validation
// ---------------------------------------------------------------------------

/// What a validation counted.
#[derive(Clone, Copy, Debug, PartialEq, Eq, Structural)]
pub struct ValidationCounts {
    pub records: usize,
    pub nodes: usize,
    pub edges: usize,
    pub tombstones: usize,
    pub defects: usize,
}

/// What is told of a validation.
pub open spec fn validation_line(c: ValidationCounts) -> Seq<char> {
    "validated "@ + decimal_seq(c.records as nat) + " records ("@ + decimal_seq(c.nodes as nat)
        + " nodes, "@ + decimal_seq(c.edges as nat) + " edges, "@ + decimal_seq(
        c.tombstones as nat,
    ) + " tombstones): "@ + decimal_seq(c.defects as nat) + " defect"@ + (if c.defects == 1 {
        ""@
    } else {
        "s"@
    })
}

/// What is told of a validation.
pub fn validation_text(c: ValidationCounts) -> (r: String)
    ensures
        r@ == validation_line(c),
{
    let records = decimal(c.records as u64);
    let nodes = decimal(c.nodes as u64);
    let edges = decimal(c.edges as u64);
    let tombstones = decimal(c.tombstones as u64);
    let defects = decimal(c.defects as u64);
    let head = concat7(
        "validated ",
        records.as_str(),
        " records (",
        nodes.as_str(),
        " nodes, ",
        edges.as_str(),
        " edges, ",
    );
    let plural = if c.defects == 1 {
        ""
    } else {
        "s"
    };
    let tail = concat5(tombstones.as_str(), " tombstones): ", defects.as_str(), " defect", plural);
    let r = concat2(head.as_str(), tail.as_str());
    assert(r@ =~= validation_line(c));
    r
}

/// The exit code of a validation: nil where there is no defect.
pub fn validation_exit(c: ValidationCounts) -> (r: u8)
    ensures
        r == (if c.defects == 0 {
            0u8
        } else {
            1u8
        }),
{
    if c.defects == 0 {
        0
    } else {
        1
    }
}

// ---------------------------------------------------------------------------
// Watching
// ---------------------------------------------------------------------------

/// A directory that may be watched, and whether it is there.
#[derive(Clone, Copy, Debug, PartialEq, Eq)]
pub struct WatchDir<'a> {
    pub path: &'a str,
    pub exists: bool,
}

/// A directory that may be watched, by its path, where it is there.
pub open spec fn present(d: Option<WatchDir<'_>>) -> Option<Seq<char>> {
    match d {
        Some(x) => if x.exists {
            Some(x.path@)
        } else {
            None
        },
        None => None,
    }
}

/// The directory that is watched: the one that was asked for, and only where none was the
/// usual one; neither where it is not there.
pub open spec fn watched(asked: Option<WatchDir<'_>>, usual: Option<WatchDir<'_>>) -> Option<
    Seq<char>,
> {
    match asked {
        Some(_) => present(asked),
        None => present(usual),
    }
}

/// The directory that is watched.
pub fn watch_dir<'a>(asked: Option<WatchDir<'a>>, usual: Option<WatchDir<'a>>) -> (r: Option<
    &'a str,
>)
    ensures
        opt_str_view(r) == watched(asked, usual),
{
    let d = match asked {
        Some(x) => Some(x),
        None => usual,
    };
    match d {
        Some(x) => if x.exists {
            Some(x.path)
        } else {
            None
        },
        None => None,
    }
}

/// What is told of a directory that was asked for and is not there.
pub open spec fn missing_warning(agent: Seq<char>, asked: Option<WatchDir<'_>>) -> Option<
    Seq<char>,
> {
    match asked {
        Some(x) => if x.exists {
            None
        } else {
            Some(
                "[Watcher Warning] Specified "@ + agent + " directory does not exist: "@ + x.path@,
            )
        },
        None => None,
    }
}

/// What is told of a directory that was asked for and is not there.
pub fn watch_warning(agent: &str, asked: Option<WatchDir<'_>>) -> (r: Option<String>)
    ensures
        opt_view(r) == missing_warning(agent@, asked),
{
    match asked {
        Some(x) => if x.exists {
            None
        } else {
            Some(
                crate::text::concat4(
                    "[Watcher Warning] Specified ",
                    agent,
                    " directory does not exist: ",
                    x.path,
                ),
            )
        },
        None => None,
    }
}

/// Whether there is anything to watch.
pub fn check_watch(a: Option<&str>, b: Option<&str>, c: Option<&str>) -> (r: Result<(), String>)
    ensures
        r is Err <==> (a is None && b is None && c is None),
        r is Err ==> r->Err_0@
            == "No valid agent directories to watch. Ensure at least one directory exists or was explicitly specified."@,
{
    if a.is_none() && b.is_none() && c.is_none() {
        Err(
            "No valid agent directories to watch. Ensure at least one directory exists or was explicitly specified.".to_owned(),
        )
    } else {
        Ok(())
    }
}

} // verus!

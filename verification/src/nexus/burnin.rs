//! Which trees of a file are kept: the burn-in, the first tree, and the
//! choice of how to read.

use vstd::prelude::*;

verus! {

/// The number of trees from which on a burn-in counts as significant.
pub const SIGNIFICANT_BURNIN_THRESHOLD: usize = 100;

/// The file size in bytes from which on a file is read through a buffer.
pub const AUTO_IN_MEMORY_THRESHOLD: u64 = 104857600;

/// How many of the first trees are dropped.
///
/// A share is given as a fraction of two whole numbers, so that what it comes
/// to is exact.
#[derive(Debug, Clone, Copy, PartialEq, Eq, Structural)]
pub enum Burnin {
    /// A fixed number of trees.
    Count(usize),
    /// The share `numerator / denominator` of the trees, rounded down.
    Percentage { numerator: usize, denominator: usize },
}

/// How a file is read.
#[derive(Debug, Clone, Copy, PartialEq, Eq, Structural)]
pub enum ReadStrategy {
    /// In chunks, through a buffered reader.
    Buffered,
    /// As a whole, into memory.
    InMemory,
    /// One or the other, by the size of the file.
    Automatic,
}

/// `n`, or the largest machine word if `n` is larger.
pub open spec fn clamp(n: int) -> usize {
    if n > usize::MAX {
        usize::MAX
    } else if n < 0 {
        0
    } else {
        n as usize
    }
}

/// The number of trees that `burnin` drops of `total`: the count itself, or
/// the share of `total` rounded down. A share with denominator zero drops
/// nothing.
pub open spec fn burnin_count(burnin: Burnin, total: usize) -> usize {
    match burnin {
        Burnin::Count(n) => n,
        Burnin::Percentage { numerator, denominator } => if denominator == 0 {
            0
        } else {
            clamp((total * numerator) / (denominator as int))
        },
    }
}

/// Whether `burnin` drops so much that counting the trees first pays: a
/// hundred trees or more, or a twentieth of them or more.
pub open spec fn burnin_significant(burnin: Burnin) -> bool {
    match burnin {
        Burnin::Count(n) => n >= SIGNIFICANT_BURNIN_THRESHOLD,
        Burnin::Percentage { numerator, denominator } => denominator > 0 && 20 * numerator
            >= denominator,
    }
}

/// Which trees of a file are kept.
#[derive(Debug, Clone, Copy, PartialEq, Eq, Structural)]
pub struct TreeCounts {
    /// The number of trees in the file.
    pub num_total_trees: usize,
    /// The number of trees kept.
    pub num_trees: usize,
    /// The number of trees dropped, which is the position of the first kept.
    pub start_tree_pos: usize,
}

/// How many trees are dropped before burn-in: the first, if it is to be
/// skipped and there is one.
pub open spec fn first_skip(skip_first: bool, total: usize) -> usize {
    if skip_first && total > 0 {
        1
    } else {
        0
    }
}

/// How many trees are dropped of `total`: the first one if asked for, and the
/// burn-in of the others.
pub open spec fn skip_count(skip_first: bool, burnin: Burnin, total: usize) -> usize {
    clamp(
        first_skip(skip_first, total) + burnin_count(
            burnin,
            (total - first_skip(skip_first, total)) as usize,
        ),
    )
}

/// The counts for a file of `total` trees.
pub open spec fn tree_counts(skip_first: bool, burnin: Burnin, total: usize) -> TreeCounts {
    let skip = skip_count(skip_first, burnin, total);
    TreeCounts {
        num_total_trees: total,
        num_trees: if skip >= total {
            0
        } else {
            (total - skip) as usize
        },
        start_tree_pos: skip,
    }
}

impl Burnin {
    /// The number of trees dropped of `num_total_trees`.
    pub fn get_count(&self, num_total_trees: usize) -> (r: usize)
        ensures
            r == burnin_count(*self, num_total_trees),
    {
        match self {
            Burnin::Count(n) => *n,
            Burnin::Percentage { numerator, denominator } => {
                if *denominator == 0 {
                    0
                } else {
                    assert((num_total_trees as u128) * (*numerator as u128) <= u128::MAX)
                        by (nonlinear_arith)
                        requires
                            num_total_trees <= 0xffff_ffff_ffff_ffff,
                            *numerator <= 0xffff_ffff_ffff_ffff,
                    ;
                    let product: u128 = (num_total_trees as u128) * (*numerator as u128);
                    let share: u128 = product / (*denominator as u128);
                    if share > usize::MAX as u128 {
                        usize::MAX
                    } else {
                        share as usize
                    }
                }
            },
        }
    }

    /// Whether so much is dropped that counting the trees first pays.
    pub fn significant(&self) -> (r: bool)
        ensures
            r == burnin_significant(*self),
    {
        match self {
            Burnin::Count(n) => *n >= SIGNIFICANT_BURNIN_THRESHOLD,
            Burnin::Percentage { numerator, denominator } => {
                *denominator > 0 && 20 * (*numerator as u128) >= *denominator as u128
            },
        }
    }
}

/// The counts for a file of `num_total_trees` trees.
pub fn configure_tree_counts(skip_first: bool, burnin: Burnin, num_total_trees: usize) -> (r:
    TreeCounts)
    ensures
        r == tree_counts(skip_first, burnin, num_total_trees),
        r.num_trees <= r.num_total_trees,
        r.start_tree_pos <= r.num_total_trees ==> r.num_trees + r.start_tree_pos
            == r.num_total_trees,
{
    let first: usize = if skip_first && num_total_trees > 0 {
        1
    } else {
        0
    };
    let dropped: usize = burnin.get_count(num_total_trees - first);
    let skip: usize = if dropped > usize::MAX - first {
        usize::MAX
    } else {
        first + dropped
    };
    let kept: usize = if skip >= num_total_trees {
        0
    } else {
        num_total_trees - skip
    };
    TreeCounts { num_total_trees, num_trees: kept, start_tree_pos: skip }
}

/// With the first tree skipped and a burn-in of `k` trees, a file of `total`
/// trees keeps `total - 1 - k` of them, and none where that is below zero.
pub proof fn lemma_kept_after_count(total: usize, k: usize)
    ensures
        tree_counts(true, Burnin::Count(k), total).num_trees == (if total - 1 - k > 0 {
            total - 1 - k
        } else {
            0
        }),
{
}

/// A share drops its part of the trees that are left once the first tree is
/// set aside, rounded down.
pub proof fn lemma_skipped_by_share(
    skip_first: bool,
    numerator: usize,
    denominator: usize,
    total: usize,
)
    requires
        denominator > 0,
        numerator <= denominator,
    ensures
        burnin_count(
            Burnin::Percentage { numerator, denominator },
            (total - first_skip(skip_first, total)) as usize,
        ) == ((total - first_skip(skip_first, total)) * numerator) / (denominator as int),
        tree_counts(skip_first, Burnin::Percentage { numerator, denominator }, total).start_tree_pos
            == first_skip(skip_first, total) + ((total - first_skip(skip_first, total)) * numerator)
            / (denominator as int),
{
    let rest = (total - first_skip(skip_first, total)) as usize;
    assert((rest * numerator) / (denominator as int) <= rest) by (nonlinear_arith)
        requires
            0 <= numerator <= denominator,
            denominator > 0,
            rest >= 0,
    ;
    assert(0 <= (rest * numerator) / (denominator as int)) by (nonlinear_arith)
        requires
            0 <= numerator,
            denominator > 0,
            rest >= 0,
    ;
}

/// Whether a file of `file_size` bytes is read through a buffer under
/// `strategy`.
pub fn use_buffered(strategy: ReadStrategy, file_size: u64) -> (r: bool)
    ensures
        r == match strategy {
            ReadStrategy::Buffered => true,
            ReadStrategy::InMemory => false,
            ReadStrategy::Automatic => file_size >= AUTO_IN_MEMORY_THRESHOLD,
        },
{
    match strategy {
        ReadStrategy::Buffered => true,
        ReadStrategy::InMemory => false,
        ReadStrategy::Automatic => file_size >= AUTO_IN_MEMORY_THRESHOLD,
    }
}

} // verus!

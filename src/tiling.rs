use vstd::prelude::*;

use vstd::arithmetic::div_mod::lemma_fundamental_div_mod;

verus! {

/// Height of strip `i` when `img_height` rows are shared among `n` workers:
/// every strip gets the quotient, and the first `img_height % n` strips one
/// extra row each.
pub open spec fn strip_height(img_height: nat, n: nat, i: nat) -> nat
    recommends
        n > 0,
{
    img_height / n + if i < img_height % n {
        1nat
    } else {
        0nat
    }
}

/// First row of strip `i`: the rows of all strips before it.
pub open spec fn strip_offset(img_height: nat, n: nat, i: nat) -> nat
    recommends
        n > 0,
{
    i * (img_height / n) + if i < img_height % n {
        i
    } else {
        img_height % n
    }
}

/// Sum of the heights of the first `k` strips.
pub open spec fn strips_total(img_height: nat, n: nat, k: nat) -> nat
    decreases k,
{
    if k == 0 {
        0
    } else {
        strips_total(img_height, n, (k - 1) as nat) + strip_height(img_height, n, (k - 1) as nat)
    }
}

/// One horizontal band of the image, rendered by one worker.
#[derive(Debug, Clone, Copy, PartialEq, Eq, Structural)]
pub struct Strip {
    pub y_offset: usize,
    pub height: usize,
}

proof fn lemma_offset_step(img_height: nat, n: nat, k: nat)
    requires
        n > 0,
    ensures
        strip_offset(img_height, n, k + 1) == strip_offset(img_height, n, k) + strip_height(
            img_height,
            n,
            k,
        ),
{
    let q = img_height / n;
    assert((k + 1) * q == k * q + q) by (nonlinear_arith);
}

proof fn lemma_total_is_offset(img_height: nat, n: nat, k: nat)
    requires
        n > 0,
    ensures
        strips_total(img_height, n, k) == strip_offset(img_height, n, k),
    decreases k,
{
    if k > 0 {
        lemma_total_is_offset(img_height, n, (k - 1) as nat);
        lemma_offset_step(img_height, n, (k - 1) as nat);
    } else {
        assert(0 * (img_height / n) == 0);
    }
}

/// Strip `k` ends no lower than the image's last row.
proof fn lemma_offset_bound(img_height: nat, n: nat, k: nat)
    requires
        n > 0,
        k <= n,
    ensures
        strip_offset(img_height, n, k) <= img_height,
        strip_offset(img_height, n, n) == img_height,
{
    let q = img_height / n;
    assert(k * q <= n * q) by (nonlinear_arith)
        requires
            k <= n,
    ;
    lemma_fundamental_div_mod(img_height as int, n as int);
}

/// Splitting `img_height` rows among `n` workers hands out every row exactly
/// once: the strips follow one another from row zero, their heights add up to
/// `img_height`, and no two heights differ by more than one row.
pub proof fn lemma_strips_partition(img_height: nat, n: nat)
    requires
        1 <= n <= img_height,
    ensures
        strips_total(img_height, n, n) == img_height,
        strip_offset(img_height, n, 0) == 0,
        forall|i: nat|
            i < n ==> #[trigger] strip_offset(img_height, n, i + 1) == strip_offset(img_height, n, i)
                + strip_height(img_height, n, i),
        forall|i: nat, j: nat|
            i < n && j < n ==> #[trigger] strip_height(img_height, n, i) <= #[trigger] strip_height(
                img_height,
                n,
                j,
            ) + 1,
{
    lemma_total_is_offset(img_height, n, n);
    lemma_offset_bound(img_height, n, n);
    assert forall|i: nat| i < n implies #[trigger] strip_offset(img_height, n, i + 1)
        == strip_offset(img_height, n, i) + strip_height(img_height, n, i) by {
        lemma_offset_step(img_height, n, i);
    }
}

/// The strips of an image `img_height` rows high for `jobs` workers, from
/// the top down.
pub fn plan_strips(img_height: usize, jobs: usize) -> (r: Vec<Strip>)
    requires
        jobs >= 1,
    ensures
        r@.len() == jobs,
        forall|i: int|
            0 <= i < jobs ==> {
                &&& (#[trigger] r@[i]).height == strip_height(img_height as nat, jobs as nat, i as nat)
                &&& r@[i].y_offset == strip_offset(img_height as nat, jobs as nat, i as nat)
            },
{
    let section_height: usize = img_height / jobs;
    let mut extra_rows: usize = img_height % jobs;
    let mut height_offset: usize = 0;
    let mut strips: Vec<Strip> = Vec::new();
    let mut i: usize = 0;
    while i < jobs
        invariant
            1 <= jobs,
            i <= jobs,
            section_height == img_height / jobs,
            extra_rows == if i < img_height % jobs {
                (img_height % jobs - i) as nat
            } else {
                0
            },
            height_offset == strip_offset(img_height as nat, jobs as nat, i as nat),
            strips@.len() == i,
            forall|k: int|
                0 <= k < i ==> {
                    &&& (#[trigger] strips@[k]).height == strip_height(
                        img_height as nat,
                        jobs as nat,
                        k as nat,
                    )
                    &&& strips@[k].y_offset == strip_offset(img_height as nat, jobs as nat, k as nat)
                },
        decreases jobs - i,
    {
        proof {
            lemma_offset_step(img_height as nat, jobs as nat, i as nat);
            lemma_offset_bound(img_height as nat, jobs as nat, (i + 1) as nat);
        }
        let strip_height: usize = if extra_rows > 0 {
            extra_rows = extra_rows - 1;
            section_height + 1
        } else {
            section_height
        };
        strips.push(Strip { y_offset: height_offset, height: strip_height });
        height_offset = height_offset + strip_height;
        i = i + 1;
    }
    strips
}

/// How many workers render an image: an explicit request (`requested > 0`) is
/// clamped to `[1, available]`; without one, all available threads but one
/// are used. Never fewer than one worker.
pub open spec fn job_count_for(requested: int, available: int) -> int {
    let wanted = if requested == 0 {
        available - 1
    } else if requested < available {
        requested
    } else {
        available
    };
    if wanted < 1 {
        1
    } else {
        wanted
    }
}

/// The number of workers for a request, given how many hardware threads are
/// available; `requested == 0` asks for the default.
pub fn job_count(requested: usize, available: usize) -> (r: usize)
    ensures
        r == job_count_for(requested as int, available as int),
{
    let wanted: usize = if requested == 0 {
        if available > 0 {
            available - 1
        } else {
            0
        }
    } else if requested < available {
        requested
    } else {
        available
    };
    if wanted < 1 {
        1
    } else {
        wanted
    }
}

/// Relies on num_cpus::get, the number of logical CPUs this process may run
/// on; it depends on the machine, and nothing is assumed of it.
pub assume_specification[ num_cpus::get ]() -> usize;

/// The number of workers for a request (`0` for the default) on this machine.
pub fn get_job_count(arg: usize) -> (r: usize)
    ensures
        r >= 1,
        arg != 0 ==> r <= arg,
        exists|available: usize| r == job_count_for(arg as int, available as int),
{
    let available = num_cpus::get();
    job_count(arg, available)
}

} // verus!

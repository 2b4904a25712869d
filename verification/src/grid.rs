//! Dimensions of the simulation grid and the sizes derived from them.

use vstd::prelude::*;
use vstd::arithmetic::div_mod::{lemma_fundamental_div_mod, lemma_fundamental_div_mod_converse};

verus! {

/// Number of columns of the grid.
pub const WIDTH: usize = 400;

/// Number of rows of the grid.
pub const HEIGHT: usize = 500;

/// Bytes taken by one sample, a 32-bit float.
pub const SAMPLE_BYTES: usize = 4;

/// Invocations per workgroup, as the shader binary declares them.
pub const LOCAL_GROUP_SIZE: usize = 64;

/// Byte length of every scalar field of the grid.
pub const BUFFER_SIZE: u64 = 800_000;

/// Number of samples that the diagnostic preview of a field shows.
pub const PREVIEW_LEN: usize = 12;

/// Byte length of a field over a grid of the given dimensions.
pub open spec fn field_byte_len(width: nat, height: nat) -> nat {
    width * height * 4
}

/// Byte length of a scalar field of `width` by `height` samples, or `None`
/// where that length does not fit the machine's address space.
pub fn buffer_byte_len(width: usize, height: usize) -> (len: Option<usize>)
    ensures
        len is Some <==> field_byte_len(width as nat, height as nat) <= usize::MAX,
        len is Some ==> len.unwrap() == field_byte_len(width as nat, height as nat),
{
    match width.checked_mul(height) {
        Some(cells) => {
            match cells.checked_mul(SAMPLE_BYTES) {
                Some(bytes) => Some(bytes),
                None => None,
            }
        },
        None => {
            proof {
                assert(width * height * 4 >= width * height) by (nonlinear_arith)
                    requires width * height >= 0;
            }
            None
        },
    }
}

/// `n / d`, rounded up.
pub open spec fn ceil_div(n: nat, d: nat) -> nat {
    ((n + d - 1) / (d as int)) as nat
}

/// Number of workgroups in each of the three dimensions of a dispatch.
#[derive(Clone, Copy, Debug, PartialEq, Eq, Structural)]
pub struct DispatchSize {
    pub x: u32,
    pub y: u32,
    pub z: u32,
}

/// The byte length of the grid's fields is that of `WIDTH` by `HEIGHT`
/// samples.
pub proof fn lemma_buffer_size()
    ensures
        BUFFER_SIZE == field_byte_len(WIDTH as nat, HEIGHT as nat),
{
    assert(400 * 500 * 4 == 800_000) by (nonlinear_arith);
}

/// `ceil_div(n, d)` groups of `d` cover `n`.
pub proof fn lemma_ceil_div_covers(n: nat, d: nat)
    requires
        d > 0,
    ensures
        ceil_div(n, d) * d >= n,
{
    let c = ceil_div(n, d) as int;
    let m = n + d - 1;
    lemma_fundamental_div_mod(m, d as int);
    assert(c * d >= n) by (nonlinear_arith)
        requires m == d * c + m % (d as int), 0 <= m % (d as int) < d, m == n + d - 1;
}

/// No number of groups below `ceil_div(n, d)` covers `n`.
pub proof fn lemma_ceil_div_is_least(n: nat, d: nat, k: nat)
    requires
        d > 0,
        k * d >= n,
    ensures
        k >= ceil_div(n, d),
{
    let c = ceil_div(n, d) as int;
    let m = n + d - 1;
    lemma_fundamental_div_mod(m, d as int);
    if k < c {
        assert(k * d <= (c - 1) * d) by (nonlinear_arith)
            requires k <= c - 1, d > 0;
        assert((c - 1) * d < n) by (nonlinear_arith)
            requires m == d * c + m % (d as int), 0 <= m % (d as int) < d, m == n + d - 1;
    }
}

/// Number of workgroups of `local` invocations that cover `cells` cells.
pub fn workgroup_count(cells: usize, local: usize) -> (count: usize)
    requires
        local > 0,
    ensures
        count == ceil_div(cells as nat, local as nat),
{
    let whole: usize = cells / local;
    let rest: usize = cells % local;
    proof {
        let m = cells + local - 1;
        lemma_fundamental_div_mod(cells as int, local as int);
        assert(local * whole == whole * local) by (nonlinear_arith);
        assert((whole + 1) * local == whole * local + local) by (nonlinear_arith);
        assert(whole <= whole * local) by (nonlinear_arith)
            requires local >= 1, whole >= 0;
        if rest == 0 {
            lemma_fundamental_div_mod_converse(
                m,
                local as int,
                whole as int,
                local - 1,
            );
        } else {
            lemma_fundamental_div_mod_converse(
                m,
                local as int,
                whole + 1,
                rest - 1,
            );
        }
    }
    if rest == 0 {
        whole
    } else {
        whole + 1
    }
}

/// The size of the one dispatch that covers `cells` cells: enough
/// workgroups of `LOCAL_GROUP_SIZE` invocations in the first dimension, one
/// in each of the others. `None` where that number does not fit 32 bits.
pub fn dispatch_size(cells: usize) -> (size: Option<DispatchSize>)
    ensures
        size is Some <==> ceil_div(cells as nat, LOCAL_GROUP_SIZE as nat) <= u32::MAX,
        size is Some ==> size->Some_0 == (DispatchSize {
            x: ceil_div(cells as nat, LOCAL_GROUP_SIZE as nat) as u32,
            y: 1,
            z: 1,
        }),
{
    let count: usize = workgroup_count(cells, LOCAL_GROUP_SIZE);
    if count > u32::MAX as usize {
        None
    } else {
        Some(DispatchSize { x: count as u32, y: 1, z: 1 })
    }
}

} // verus!

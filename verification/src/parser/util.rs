use vstd::prelude::*;

verus! {

/// How many bytes block `index` holds when `total_size` bytes are cut into
/// blocks of `block_size`.
pub open spec fn block_take(total_size: nat, index: nat, block_size: nat) -> nat {
    let left = total_size - index * block_size;
    if left < block_size {
        left as nat
    } else {
        block_size
    }
}

/// The blocks `0..n` laid end to end: block `i` is the `block_take(..)`
/// bytes at `block_offsets[i]`.
pub open spec fn flattened(
    bytes: Seq<u8>,
    total_size: nat,
    block_offsets: Seq<usize>,
    block_size: nat,
    n: nat,
) -> Seq<u8>
    decreases n,
{
    if n == 0 {
        Seq::empty()
    } else {
        let i = (n - 1) as nat;
        let start = block_offsets[i as int] as int;
        flattened(bytes, total_size, block_offsets, block_size, i) + bytes.subrange(
            start,
            start + block_take(total_size, i, block_size),
        )
    }
}

/// Every block lies within `total_size` and within `bytes`.
pub open spec fn blocks_fit(
    bytes: Seq<u8>,
    total_size: nat,
    block_offsets: Seq<usize>,
    block_size: nat,
) -> bool {
    forall|i: int|
        0 <= i < block_offsets.len() ==> #[trigger] block_fits(
            bytes,
            total_size,
            block_offsets,
            block_size,
            i,
        )
}

/// The joined blocks hold `total_size` bytes, or fewer if the blocks end
/// before.
pub proof fn lemma_flattened_len(
    bytes: Seq<u8>,
    total_size: nat,
    block_offsets: Seq<usize>,
    block_size: nat,
    n: nat,
)
    requires
        n <= block_offsets.len(),
        blocks_fit(bytes, total_size, block_offsets, block_size),
    ensures
        flattened(bytes, total_size, block_offsets, block_size, n).len() <= total_size,
        flattened(bytes, total_size, block_offsets, block_size, n).len() == (if n * block_size
            <= total_size {
            n * block_size
        } else {
            total_size
        }),
    decreases n,
{
    if n > 0 {
        let i = (n - 1) as nat;
        lemma_flattened_len(bytes, total_size, block_offsets, block_size, i);
        assert(block_fits(bytes, total_size, block_offsets, block_size, i as int));
        assert(block_offsets[i as int] + block_take(total_size, i, block_size) <= bytes.len());
        assert(i * block_size <= total_size);
        assert(n * block_size == i * block_size + block_size) by (nonlinear_arith)
            requires
                n == i + 1,
        ;
        let start = block_offsets[i as int] as int;
        let take = block_take(total_size, i, block_size);
        assert(bytes.subrange(start, start + take).len() == take);
        assert(flattened(bytes, total_size, block_offsets, block_size, n).len() == flattened(
            bytes,
            total_size,
            block_offsets,
            block_size,
            i,
        ).len() + take);
    } else {
        assert(0 * block_size == 0);
    }
}

/// Joins the blocks of a table into one sequence of bytes: block `i` starts
/// at `block_offsets[i]` and holds `block_size` bytes, except for the last,
/// which holds what is left of `total_size`.
pub fn flatten_table(
    bytes: &[u8],
    total_size: usize,
    block_offsets: &[usize],
    block_size: usize,
) -> (r: Vec<u8>)
    requires
        blocks_fit(bytes@, total_size as nat, block_offsets@, block_size as nat),
    ensures
        r@ == flattened(
            bytes@,
            total_size as nat,
            block_offsets@,
            block_size as nat,
            block_offsets@.len(),
        ),
{
    let mut r: Vec<u8> = Vec::new();
    let mut index: usize = 0;
    while index < block_offsets.len()
        invariant
            index <= block_offsets@.len(),
            blocks_fit(bytes@, total_size as nat, block_offsets@, block_size as nat),
            r@ == flattened(
                bytes@,
                total_size as nat,
                block_offsets@,
                block_size as nat,
                index as nat,
            ),
        decreases block_offsets@.len() - index,
    {
        let offset = block_offsets[index];
        proof {
            assert(block_fits(bytes@, total_size as nat, block_offsets@, block_size as nat, index as int));
            assert(offset + block_take(total_size as nat, index as nat, block_size as nat)
                <= bytes@.len());
            assert(index * block_size <= total_size);
        }
        let used = index * block_size;
        let left = total_size - used;
        let to_take = if left < block_size {
            left
        } else {
            block_size
        };
        assert(to_take == block_take(total_size as nat, index as nat, block_size as nat));
        let bytes_len = bytes.len();
        let end_offset = offset + to_take;
        let mut j = offset;
        let ghost before = r@;
        while j < end_offset
            invariant
                offset <= j <= end_offset <= bytes@.len(),
                r@ == before + bytes@.subrange(offset as int, j as int),
            decreases end_offset - j,
        {
            r.push(bytes[j]);
            j = j + 1;
            assert(r@ =~= before + bytes@.subrange(offset as int, j as int));
        }
        index = index + 1;
    }
    r
}

/// Whether every block lies within `total_size` and within `bytes`.
pub fn check_blocks_fit(bytes: &[u8], total_size: usize, block_offsets: &[usize], block_size: usize) -> (r: bool)
    ensures
        r == blocks_fit(bytes@, total_size as nat, block_offsets@, block_size as nat),
{
    let mut i: usize = 0;
    while i < block_offsets.len()
        invariant
            i <= block_offsets@.len(),
            forall|j: int|
                0 <= j < i ==> #[trigger] block_fits(
                    bytes@,
                    total_size as nat,
                    block_offsets@,
                    block_size as nat,
                    j,
                ),
        decreases block_offsets@.len() - i,
    {
        if block_size != 0 && i > total_size / block_size {
            proof {
                lemma_block_beyond(total_size as nat, block_size as nat, i as int);
                assert(!block_fits(bytes@, total_size as nat, block_offsets@, block_size as nat, i as int));
            }
            return false;
        }
        proof {
            lemma_block_within(total_size as nat, block_size as nat, i as int);
        }
        let used = i * block_size;
        let left = total_size - used;
        let take = if left < block_size {
            left
        } else {
            block_size
        };
        assert(take == block_take(total_size as nat, i as nat, block_size as nat));
        let offset = block_offsets[i];
        if offset > bytes.len() || bytes.len() - offset < take {
            assert(!block_fits(bytes@, total_size as nat, block_offsets@, block_size as nat, i as int));
            return false;
        }
        assert(block_fits(bytes@, total_size as nat, block_offsets@, block_size as nat, i as int));
        i = i + 1;
    }
    true
}

/// Block `i` lies within `total_size` and within `bytes`.
pub open spec fn block_fits(
    bytes: Seq<u8>,
    total_size: nat,
    block_offsets: Seq<usize>,
    block_size: nat,
    i: int,
) -> bool {
    &&& i * block_size <= total_size
    &&& block_offsets[i] + block_take(total_size, i as nat, block_size) <= bytes.len()
}

proof fn lemma_block_beyond(total: nat, bs: nat, i: int)
    requires
        bs != 0,
        i > total / bs,
    ensures
        i * bs > total,
{
    assert(i * bs > total) by (nonlinear_arith)
        requires
            bs != 0,
            i > total / bs,
    ;
}

proof fn lemma_block_within(total: nat, bs: nat, i: int)
    requires
        0 <= i,
        bs == 0 || i <= total / bs,
    ensures
        i * bs <= total,
{
    if bs != 0 {
        assert(i * bs <= total) by (nonlinear_arith)
            requires
                bs != 0,
                0 <= i <= total / bs,
        ;
    } else {
        assert(i * bs == 0) by (nonlinear_arith)
            requires
                bs == 0,
        ;
    }
}

/// Table entries as positions in the file.
pub fn positions(offsets: &Vec<u32>) -> (r: Vec<usize>)
    ensures
        r@ == Seq::new(offsets@.len(), |i: int| offsets@[i] as usize),
{
    let mut r: Vec<usize> = Vec::new();
    let mut i: usize = 0;
    while i < offsets.len()
        invariant
            i <= offsets@.len(),
            r@ == Seq::new(i as nat, |j: int| offsets@[j] as usize),
        decreases offsets@.len() - i,
    {
        r.push(offsets[i] as usize);
        i = i + 1;
        assert(r@ =~= Seq::new(i as nat, |j: int| offsets@[j] as usize));
    }
    r
}

} // verus!

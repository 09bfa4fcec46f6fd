use vstd::prelude::*;

verus! {

/// The bytes that a read of `size` bytes at `offset` returns from an object
/// whose contents are `d`: nothing at or past the end, else the bytes up to
/// `offset + size` or the end, whichever comes first.
pub open spec fn read_window(d: Seq<u8>, offset: int, size: int) -> Seq<u8> {
    if offset < 0 || offset >= d.len() {
        Seq::empty()
    } else if offset + size < d.len() {
        d.subrange(offset, offset + size)
    } else {
        d.subrange(offset, d.len() as int)
    }
}

/// The contents of an object after `data` is written at `offset` into `d`:
/// the object grows with zero bytes up to `offset + data.len()` if needed.
pub open spec fn spliced(d: Seq<u8>, offset: int, data: Seq<u8>) -> Seq<u8> {
    let end = offset + data.len();
    let len = if end > d.len() {
        end
    } else {
        d.len() as int
    };
    Seq::new(
        len as nat,
        |i: int|
            if offset <= i < end {
                data[i - offset]
            } else if i < d.len() {
                d[i]
            } else {
                0u8
            },
    )
}

/// The bytes that a read of `size` bytes at `offset` returns from `d`.
pub fn read_range(d: &Vec<u8>, offset: i64, size: u32) -> (r: Vec<u8>)
    ensures
        r@ == read_window(d@, offset as int, size as int),
{
    let mut r: Vec<u8> = Vec::new();
    if offset < 0 || offset as u64 >= d.len() as u64 {
        return r;
    }
    let start = offset as usize;
    let end = if (d.len() - start) as u64 > size as u64 {
        start + size as usize
    } else {
        d.len()
    };
    let mut i: usize = start;
    while i < end
        invariant
            start <= i <= end <= d@.len(),
            r@ == d@.subrange(start as int, i as int),
        decreases end - i,
    {
        r.push(d[i]);
        i += 1;
        proof {
            assert(r@ =~= d@.subrange(start as int, i as int));
        }
    }
    r
}

/// `d` with `data` written at `offset`, grown with zero bytes as needed.
pub fn splice(d: Vec<u8>, offset: usize, data: &[u8]) -> (r: Vec<u8>)
    requires
        offset + data@.len() <= usize::MAX,
    ensures
        r@ == spliced(d@, offset as int, data@),
{
    let ghost d0 = d@;
    let mut buf = d;
    let end = offset + data.len();
    while buf.len() < end
        invariant
            d0.len() <= buf@.len(),
            end == offset + data@.len(),
            buf@.len() <= d0.len() || buf@.len() <= end,
            forall|i: int| 0 <= i < buf@.len() ==> #[trigger] buf@[i] == if i < d0.len() {
                d0[i]
            } else {
                0u8
            },
        decreases end - buf@.len(),
    {
        buf.push(0u8);
    }
    let ghost grown = buf@;
    let mut j: usize = 0;
    while j < data.len()
        invariant
            end == offset + data@.len(),
            buf@.len() == grown.len(),
            end <= grown.len(),
            j <= data@.len(),
            forall|i: int|
                0 <= i < buf@.len() ==> #[trigger] buf@[i] == if offset <= i < offset + j {
                    data@[i - offset]
                } else {
                    grown[i]
                },
        decreases data@.len() - j,
    {
        buf.set(offset + j, data[j]);
        j += 1;
    }
    proof {
        assert(buf@ =~= spliced(d0, offset as int, data@));
    }
    buf
}

/// Writing `data` at `offset` and then reading as many bytes at `offset`
/// gives `data` back.
pub proof fn lemma_write_then_read(d: Seq<u8>, offset: int, data: Seq<u8>)
    requires
        0 <= offset,
    ensures
        read_window(spliced(d, offset, data), offset, data.len() as int) == data,
{
    let s = spliced(d, offset, data);
    if data.len() > 0 {
        assert(read_window(s, offset, data.len() as int) =~= data);
    } else {
        assert(read_window(s, offset, 0) =~= data);
    }
}

} // verus!

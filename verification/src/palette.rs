//! `CLIPRDR_PALETTE`: the clipboard palette format, a plain array of
//! `PALETTEENTRY` records of four bytes each.
use vstd::prelude::*;

verus! {

/// Represents `PALETTEENTRY`
#[derive(Debug, Clone, Copy, PartialEq, Eq, Structural)]
pub struct PaletteEntry {
    pub red: u8,
    pub green: u8,
    pub blue: u8,
    pub extra: u8,
}

impl PaletteEntry {
    /// Bytes taken by one entry on the wire: red, green, blue, extra.
    pub const SIZE: usize = 4;
}

/// Represents `CLIPRDR_PALETTE`
///
/// NOTE: decoding reads all remaining data of the input as palette entries.
#[derive(Debug, Clone, PartialEq, Eq)]
pub struct ClipboardPalette {
    pub entries: Vec<PaletteEntry>,
}

/// The four bytes of one entry, in wire order.
pub open spec fn entry_bytes(e: PaletteEntry) -> Seq<u8> {
    seq![e.red, e.green, e.blue, e.extra]
}

/// The wire form of a sequence of entries: their bytes one after the other.
pub open spec fn encode_entries(entries: Seq<PaletteEntry>) -> Seq<u8>
    decreases entries.len(),
{
    if entries.len() == 0 {
        Seq::empty()
    } else {
        encode_entries(entries.drop_last()) + entry_bytes(entries.last())
    }
}

/// The entry whose four bytes start at `offset` in `bytes`.
pub open spec fn entry_at(bytes: Seq<u8>, offset: int) -> PaletteEntry {
    PaletteEntry {
        red: bytes[offset],
        green: bytes[offset + 1],
        blue: bytes[offset + 2],
        extra: bytes[offset + 3],
    }
}

/// Number of whole entries that `len` bytes hold.
pub open spec fn entry_count(len: nat) -> nat {
    len / 4
}

/// What decoding makes of `bytes`: one entry for each whole group of four
/// bytes; a trailing group of fewer than four bytes is left unread.
pub open spec fn decode_entries(bytes: Seq<u8>) -> Seq<PaletteEntry> {
    Seq::new(entry_count(bytes.len()), |i: int| entry_at(bytes, 4 * i))
}

/// Length and content of the wire form of `entries`, byte by byte.
pub proof fn lemma_encode_entries(entries: Seq<PaletteEntry>)
    ensures
        encode_entries(entries).len() == 4 * entries.len(),
        forall|i: int|
            0 <= i < entries.len() ==> #[trigger] entry_at(encode_entries(entries), 4 * i)
                == entries[i],
    decreases entries.len(),
{
    if entries.len() > 0 {
        let prefix = entries.drop_last();
        lemma_encode_entries(prefix);
        let enc = encode_entries(entries);
        assert forall|i: int| 0 <= i < entries.len() implies #[trigger] entry_at(enc, 4 * i)
            == entries[i] by {
            if i < entries.len() - 1 {
                assert(entry_at(encode_entries(prefix), 4 * i) == prefix[i]);
            }
        }
    }
}


/// A one-entry palette is written as exactly four bytes: red, green, blue,
/// extra, in that order, whatever their values.
pub proof fn lemma_single_entry_wire_form(e: PaletteEntry)
    ensures
        encode_entries(seq![e]) == seq![e.red, e.green, e.blue, e.extra],
{
    let one = seq![e];
    assert(one.drop_last() =~= Seq::<PaletteEntry>::empty());
    assert(one.last() == e);
    assert(encode_entries(one.drop_last()) =~= Seq::<u8>::empty());
    assert(encode_entries(seq![e]) =~= seq![e.red, e.green, e.blue, e.extra]);
}

/// The wire form of a palette holds, for each entry `i` and at byte `4 * i`,
/// the entry's red, green, blue and extra bytes in that order; its length is
/// four bytes per entry. The layout of an entry does not depend on its
/// position or on its values.
pub proof fn lemma_encode_layout(entries: Seq<PaletteEntry>)
    ensures
        encode_entries(entries).len() == 4 * entries.len(),
        forall|i: int|
            0 <= i < entries.len() ==> {
                &&& encode_entries(entries)[4 * i] == (#[trigger] entries[i]).red
                &&& encode_entries(entries)[4 * i + 1] == entries[i].green
                &&& encode_entries(entries)[4 * i + 2] == entries[i].blue
                &&& encode_entries(entries)[4 * i + 3] == entries[i].extra
            },
{
    lemma_encode_entries(entries);
    assert forall|i: int| 0 <= i < entries.len() implies {
        &&& encode_entries(entries)[4 * i] == (#[trigger] entries[i]).red
        &&& encode_entries(entries)[4 * i + 1] == entries[i].green
        &&& encode_entries(entries)[4 * i + 2] == entries[i].blue
        &&& encode_entries(entries)[4 * i + 3] == entries[i].extra
    } by {
        assert(entry_at(encode_entries(entries), 4 * i) == entries[i]);
    }
}

/// Decoding `bytes` gives one entry for each whole group of four bytes, and
/// entry `i` takes its red, green, blue and extra from bytes `4 * i`,
/// `4 * i + 1`, `4 * i + 2` and `4 * i + 3`, whatever its position or values.
pub proof fn lemma_decode_layout(bytes: Seq<u8>)
    ensures
        decode_entries(bytes).len() == bytes.len() / 4,
        forall|i: int|
            0 <= i < bytes.len() / 4 ==> #[trigger] decode_entries(bytes)[i] == (PaletteEntry {
                red: bytes[4 * i],
                green: bytes[4 * i + 1],
                blue: bytes[4 * i + 2],
                extra: bytes[4 * i + 3],
            }),
{
}

/// Two byte sequences of length `4 * n` that hold the same entry at each
/// offset `4 * i` are the same sequence.
proof fn lemma_bytes_eq_by_entries(a: Seq<u8>, b: Seq<u8>, n: nat)
    requires
        a.len() == 4 * n,
        b.len() == 4 * n,
        forall|i: int| 0 <= i < n ==> #[trigger] entry_at(a, 4 * i) == entry_at(b, 4 * i),
    ensures
        a == b,
{
    assert forall|j: int| 0 <= j < a.len() implies a[j] == b[j] by {
        let i = j / 4;
        assert(0 <= i < n && 4 * i <= j < 4 * i + 4) by (nonlinear_arith)
            requires
                0 <= j < 4 * n,
                i == j / 4,
        ;
        assert(entry_at(a, 4 * i) == entry_at(b, 4 * i));
    }
    assert(a =~= b);
}

/// Decoding the wire form of a palette, followed by fewer than four bytes that
/// make no whole entry, gives back exactly the palette's entries.
pub proof fn lemma_decode_encode(entries: Seq<PaletteEntry>, rest: Seq<u8>)
    requires
        rest.len() < 4,
    ensures
        decode_entries(encode_entries(entries) + rest) == entries,
{
    lemma_encode_entries(entries);
    let enc = encode_entries(entries);
    let bytes = enc + rest;
    let n = entries.len();
    assert(entry_count(bytes.len()) == n) by (nonlinear_arith)
        requires
            bytes.len() == 4 * n + rest.len(),
            rest.len() < 4,
    ;
    let dec = decode_entries(bytes);
    assert forall|i: int| 0 <= i < n implies #[trigger] dec[i] == entries[i] by {
        assert(entry_at(enc, 4 * i) == entries[i]);
        assert(bytes[4 * i] == enc[4 * i]);
        assert(bytes[4 * i + 1] == enc[4 * i + 1]);
        assert(bytes[4 * i + 2] == enc[4 * i + 2]);
        assert(bytes[4 * i + 3] == enc[4 * i + 3]);
    }
    assert(dec =~= entries);
}

/// Encoding what was decoded from `bytes` gives back the bytes that decoding
/// read: all of them but the trailing bytes that make no whole entry.
pub proof fn lemma_encode_decode(bytes: Seq<u8>)
    ensures
        encode_entries(decode_entries(bytes)) == bytes.take(4 * entry_count(bytes.len()) as int),
{
    let dec = decode_entries(bytes);
    let n = entry_count(bytes.len());
    assert(4 * n <= bytes.len()) by (nonlinear_arith)
        requires
            n == bytes.len() / 4,
    ;
    lemma_encode_entries(dec);
    let enc = encode_entries(dec);
    let prefix = bytes.take(4 * n as int);
    assert forall|i: int| 0 <= i < n implies #[trigger] entry_at(enc, 4 * i) == entry_at(
        prefix,
        4 * i,
    ) by {
        assert(entry_at(enc, 4 * i) == dec[i]);
    }
    lemma_bytes_eq_by_entries(enc, prefix, n);
}

impl ClipboardPalette {
    /// Name of the PDU.
    pub const NAME: &'static str = "CLIPRDR_PALETTE";

    /// Appends the wire form of the palette to `dst`: for each entry, in
    /// order, its red, green, blue and extra bytes.
    pub fn encode(&self, dst: &mut Vec<u8>)
        ensures
            final(dst)@ == old(dst)@ + encode_entries(self.entries@),
            final(dst)@.len() == old(dst)@.len() + 4 * self.entries.len(),
            forall|i: int|
                0 <= i < self.entries.len() ==> {
                    &&& final(dst)@[old(dst)@.len() + 4 * i] == (#[trigger] self.entries@[i]).red
                    &&& final(dst)@[old(dst)@.len() + 4 * i + 1] == self.entries@[i].green
                    &&& final(dst)@[old(dst)@.len() + 4 * i + 2] == self.entries@[i].blue
                    &&& final(dst)@[old(dst)@.len() + 4 * i + 3] == self.entries@[i].extra
                },
    {
        let ghost start = dst@;
        let n = self.entries.len();
        let mut i: usize = 0;
        while i < n
            invariant
                n == self.entries.len(),
                i <= n,
                dst@ == start + encode_entries(self.entries@.take(i as int)),
            decreases n - i,
        {
            let entry = self.entries[i];
            dst.push(entry.red);
            dst.push(entry.green);
            dst.push(entry.blue);
            dst.push(entry.extra);
            proof {
                let taken = self.entries@.take(i + 1);
                assert(taken.drop_last() =~= self.entries@.take(i as int));
                assert(taken.last() == entry);
            }
            i = i + 1;
        }
        assert(self.entries@.take(n as int) =~= self.entries@);
        proof {
            lemma_encode_layout(self.entries@);
        }
    }

    /// Name of the PDU: `CLIPRDR_PALETTE`.
    pub fn name(&self) -> (r: &'static str)
        ensures
            r@ == Self::NAME@,
    {
        Self::NAME
    }

    /// Number of bytes that `encode` writes.
    pub fn size(&self) -> (r: usize)
        requires
            self.entries.len() * 4 <= usize::MAX,
        ensures
            r == self.entries.len() * 4,
            r == encode_entries(self.entries@).len(),
    {
        proof {
            lemma_encode_entries(self.entries@);
        }
        self.entries.len() * PaletteEntry::SIZE
    }

    /// Reads all of `src` as palette entries, four bytes each, and returns the
    /// palette with the number of bytes read. Trailing bytes that do not make
    /// a whole entry are left unread.
    pub fn decode(src: &[u8]) -> (res: (ClipboardPalette, usize))
        ensures
            res.0.entries@ == decode_entries(src@),
            res.1 == 4 * res.0.entries.len(),
            res.1 <= src.len() < res.1 + 4,
            res.0.entries.len() == src.len() / 4,
            forall|i: int|
                0 <= i < res.0.entries.len() ==> #[trigger] res.0.entries@[i] == (PaletteEntry {
                    red: src@[4 * i],
                    green: src@[4 * i + 1],
                    blue: src@[4 * i + 2],
                    extra: src@[4 * i + 3],
                }),
    {
        let entries_count = src.len() / PaletteEntry::SIZE;
        let mut entries: Vec<PaletteEntry> = Vec::with_capacity(entries_count);
        let mut i: usize = 0;
        while i < entries_count
            invariant
                entries_count == src@.len() / 4,
                i <= entries_count,
                entries@.len() == i,
                forall|j: int| 0 <= j < i ==> #[trigger] entries@[j] == entry_at(src@, 4 * j),
            decreases entries_count - i,
        {
            assert(4 * i + 4 <= src@.len()) by (nonlinear_arith)
                requires
                    i < entries_count,
                    entries_count == src@.len() / 4,
            ;
            assert(src@.len() == src.len());
            let offset = i * PaletteEntry::SIZE;
            let red = src[offset];
            let green = src[offset + 1];
            let blue = src[offset + 2];
            let extra = src[offset + 3];
            entries.push(PaletteEntry { red, green, blue, extra });
            i = i + 1;
        }
        assert(entries@ =~= decode_entries(src@));
        assert(4 * entries_count <= src@.len() < 4 * entries_count + 4) by (nonlinear_arith)
            requires
                entries_count == src@.len() / 4,
        ;
        (ClipboardPalette { entries }, entries_count * PaletteEntry::SIZE)
    }
}

} // verus!

//! Typed-block container: one byte stream carrying several typed data blocks,
//! each tagged by a 4-byte type.
//!
//! Wire form: magic `FBLK`, version byte `1`, a big-endian `u16` block count,
//! then each block as `tag(4) | len(u32 BE) | data`. The tag set is open: any
//! 4-byte tag is stored and read back.
use vstd::prelude::*;
use crate::wire::{be16, be16_value, be32, be32_value, copy_range, get_be32, lemma_be16_roundtrip, lemma_be32_roundtrip, put_be16, put_be32, put_bytes};

verus! {

/// A 4-byte block type tag.
pub type Tag = [u8; 4];

/// A WASM code block in an agent bundle.
pub const TAG_WASM: Tag = [87u8, 65u8, 83u8, 77u8];
/// The agent header block.
pub const TAG_HEADER: Tag = [72u8, 69u8, 65u8, 68u8];
/// The reasoning-model block: an embedded model or a reference to one.
pub const TAG_LLM: Tag = [76u8, 76u8, 77u8, 32u8];
/// The UNL block: vocabulary rules, or a message's semantic content.
pub const TAG_UNL: Tag = [85u8, 78u8, 76u8, 32u8];
/// The data/payload block.
pub const TAG_DATA: Tag = [68u8, 65u8, 84u8, 65u8];
/// A UTF-8 string block.
pub const TAG_STRING: Tag = [83u8, 84u8, 82u8, 32u8];

/// The container's leading magic bytes, `FBLK`.
pub open spec fn magic() -> Seq<u8> {
    seq![70u8, 66u8, 76u8, 75u8]
}

/// The only container version this format knows.
pub open spec fn format_version() -> u8 {
    1u8
}

#[derive(Clone, Debug, PartialEq, Eq)]
pub struct Block {
    pub tag: Tag,
    pub data: Vec<u8>,
}

/// The abstract block: its tag bytes and its data bytes.
pub type BlockView = (Seq<u8>, Seq<u8>);

impl View for Block {
    type V = BlockView;

    open spec fn view(&self) -> BlockView {
        (self.tag@, self.data@)
    }
}

/// A container of typed blocks.
#[derive(Clone, Debug, Default, PartialEq, Eq)]
pub struct BlockFile {
    pub blocks: Vec<Block>,
}

impl View for BlockFile {
    type V = Seq<BlockView>;

    open spec fn view(&self) -> Seq<BlockView> {
        self.blocks@.map_values(|b: Block| b@)
    }
}

#[derive(Clone, Debug, PartialEq, Eq)]
pub enum BlockError {
    /// Not a block container (bad magic).
    BadMagic,
    /// Unsupported block-container version.
    Version(u8),
    /// Truncated block container.
    Truncated,
}

/// One block on the wire: tag, length (truncated to 32 bits), data.
pub open spec fn encode_block(b: BlockView) -> Seq<u8> {
    b.0 + be32(b.1.len() as u32) + b.1
}

/// The blocks on the wire, in order.
pub open spec fn encode_blocks(bs: Seq<BlockView>) -> Seq<u8>
    decreases bs.len(),
{
    if bs.len() == 0 {
        Seq::empty()
    } else {
        encode_block(bs[0]) + encode_blocks(bs.drop_first())
    }
}

/// The whole container on the wire (the count truncated to 16 bits).
pub open spec fn encode_file(bs: Seq<BlockView>) -> Seq<u8> {
    magic() + seq![format_version()] + be16(bs.len() as u16) + encode_blocks(bs)
}

/// Reads `count` blocks from the front of `rest`; trailing bytes are ignored.
/// `None` when the bytes run out.
pub open spec fn parse_blocks(rest: Seq<u8>, count: nat) -> Option<Seq<BlockView>>
    decreases count,
{
    if count == 0 {
        Some(Seq::empty())
    } else if rest.len() < 8 {
        None
    } else {
        let len = be32_value(rest.subrange(4, 8));
        if rest.len() - 8 < len {
            None
        } else {
            let b: BlockView = (rest.subrange(0, 4), rest.subrange(8, 8 + len));
            match parse_blocks(rest.skip(8 + len), (count - 1) as nat) {
                Some(bs) => Some(seq![b] + bs),
                None => None,
            }
        }
    }
}

/// What decoding `bytes` yields.
pub open spec fn decode_spec(bytes: Seq<u8>) -> Result<Seq<BlockView>, BlockError> {
    if bytes.len() < 4 {
        Err(BlockError::Truncated)
    } else if bytes.take(4) != magic() {
        Err(BlockError::BadMagic)
    } else if bytes.len() < 5 {
        Err(BlockError::Truncated)
    } else if bytes[4] != format_version() {
        Err(BlockError::Version(bytes[4]))
    } else if bytes.len() < 7 {
        Err(BlockError::Truncated)
    } else {
        match parse_blocks(bytes.skip(7), be16_value(bytes[5], bytes[6]) as nat) {
            Some(bs) => Ok(bs),
            None => Err(BlockError::Truncated),
        }
    }
}

/// Whether every block's tag has 4 bytes and the container's sizes fit their
/// wire fields (at most 65535 blocks, each under 4 GiB).
pub open spec fn fits_wire(bs: Seq<BlockView>) -> bool {
    &&& bs.len() <= 65535
    &&& forall|i: int| 0 <= i < bs.len() ==> (#[trigger] bs[i]).0.len() == 4 && bs[i].1.len() < 4294967296
}

/// Index of the first block carrying `tag`, if any.
pub open spec fn first_with_tag(bs: Seq<BlockView>, tag: Seq<u8>) -> Option<int> {
    if exists|i: int| 0 <= i < bs.len() && (#[trigger] bs[i]).0 == tag {
        Some(choose|i: int| 0 <= i < bs.len() && (#[trigger] bs[i]).0 == tag
            && forall|j: int| 0 <= j < i ==> (#[trigger] bs[j]).0 != tag)
    } else {
        None
    }
}

proof fn lemma_first_with_tag(bs: Seq<BlockView>, tag: Seq<u8>, i: int)
    requires
        0 <= i < bs.len(),
        bs[i].0 == tag,
        forall|j: int| 0 <= j < i ==> (#[trigger] bs[j]).0 != tag,
    ensures
        first_with_tag(bs, tag) == Some(i),
{
    let k = choose|k: int| 0 <= k < bs.len() && (#[trigger] bs[k]).0 == tag
        && forall|j: int| 0 <= j < k ==> (#[trigger] bs[j]).0 != tag;
    assert(0 <= i < bs.len() && bs[i].0 == tag && forall|j: int| 0 <= j < i ==> (#[trigger] bs[j]).0 != tag);
    if k < i {
        assert(bs[k].0 != tag);
    } else if k > i {
        assert(bs[i].0 != tag);
    }
}

proof fn lemma_encode_blocks_push(bs: Seq<BlockView>, b: BlockView)
    ensures
        encode_blocks(bs.push(b)) == encode_blocks(bs) + encode_block(b),
    decreases bs.len(),
{
    if bs.len() == 0 {
        assert(bs.push(b).drop_first() == Seq::<BlockView>::empty());
        assert(encode_blocks(bs.push(b)) == encode_block(b) + encode_blocks(Seq::<BlockView>::empty()));
        assert(encode_block(b) + Seq::<u8>::empty() == encode_block(b));
    } else {
        assert(bs.push(b).drop_first() == bs.drop_first().push(b));
        lemma_encode_blocks_push(bs.drop_first(), b);
        assert(encode_blocks(bs.push(b)) == encode_block(bs[0]) + encode_blocks(bs.drop_first().push(b)));
    }
}

proof fn lemma_parse_encoded(bs: Seq<BlockView>, rest: Seq<u8>)
    requires
        forall|i: int| 0 <= i < bs.len() ==> (#[trigger] bs[i]).0.len() == 4 && bs[i].1.len() < 4294967296,
    ensures
        parse_blocks(encode_blocks(bs) + rest, bs.len()) == Some(bs),
    decreases bs.len(),
{
    if bs.len() > 0 {
        let b = bs[0];
        let tail = bs.drop_first();
        assert forall|i: int| 0 <= i < tail.len() implies (#[trigger] tail[i]).0.len() == 4 && tail[i].1.len() < 4294967296 by {
            assert(tail[i] == bs[i + 1]);
        }
        lemma_parse_encoded(tail, rest);
        let n = b.1.len() as u32;
        lemma_be32_roundtrip(n);
        let s = encode_blocks(bs) + rest;
        assert(s == b.0 + be32(n) + b.1 + (encode_blocks(tail) + rest));
        assert(s.subrange(4, 8) == be32(n));
        assert(s.subrange(0, 4) == b.0);
        assert(s.subrange(8, 8 + b.1.len() as int) == b.1);
        assert(s.skip(8 + b.1.len() as int) == encode_blocks(tail) + rest);
        assert(seq![b] + tail == bs);
    }
}

/// Decoding what `encode` produced gives back the same blocks, for every
/// container whose sizes fit the wire fields.
pub proof fn lemma_decode_encode(bs: Seq<BlockView>)
    requires
        fits_wire(bs),
    ensures
        decode_spec(encode_file(bs)) == Ok::<Seq<BlockView>, BlockError>(bs),
{
    let e = encode_file(bs);
    lemma_be16_roundtrip(bs.len() as u16);
    assert(e.take(4) == magic());
    assert(e[4] == format_version());
    assert(e.skip(7) == encode_blocks(bs) + Seq::<u8>::empty());
    lemma_parse_encoded(bs, Seq::empty());
}

fn tag_eq(a: &Tag, b: &Tag) -> (r: bool)
    ensures
        r == (a@ == b@),
{
    let r = a[0] == b[0] && a[1] == b[1] && a[2] == b[2] && a[3] == b[3];
    if r {
        assert(a@ =~= b@);
    }
    r
}

impl BlockFile {
    pub fn new() -> (f: Self)
        ensures
            f@ == Seq::<BlockView>::empty(),
    {
        BlockFile { blocks: Vec::new() }
    }

    /// Add a block (builder form).
    pub fn with(self, tag: Tag, data: Vec<u8>) -> (f: Self)
        ensures
            f@ == self@.push((tag@, data@)),
    {
        let mut s = self;
        let ghost before = s.blocks@;
        s.blocks.push(Block { tag, data });
        assert(s@ == before.map_values(|b: Block| b@).push((tag@, data@)));
        s
    }

    /// The bytes of the first block with this tag, if present.
    pub fn get(&self, tag: Tag) -> (r: Option<&[u8]>)
        ensures
            match first_with_tag(self@, tag@) {
                Some(i) => r matches Some(d) && d@ == self@[i].1,
                None => r is None,
            },
    {
        let mut i: usize = 0;
        while i < self.blocks.len()
            invariant
                i <= self.blocks@.len(),
                forall|j: int| 0 <= j < i ==> (#[trigger] self@[j]).0 != tag@,
            decreases self.blocks@.len() - i,
        {
            if tag_eq(&self.blocks[i].tag, &tag) {
                proof {
                    lemma_first_with_tag(self@, tag@, i as int);
                }
                return Some(self.blocks[i].data.as_slice());
            }
            i = i + 1;
        }
        None
    }

    /// Whether some block carries this tag.
    pub fn has(&self, tag: Tag) -> (r: bool)
        ensures
            r == exists|i: int| 0 <= i < self@.len() && (#[trigger] self@[i]).0 == tag@,
    {
        let mut i: usize = 0;
        while i < self.blocks.len()
            invariant
                i <= self.blocks@.len(),
                forall|j: int| 0 <= j < i ==> (#[trigger] self@[j]).0 != tag@,
            decreases self.blocks@.len() - i,
        {
            if tag_eq(&self.blocks[i].tag, &tag) {
                assert(self@[i as int].0 == tag@);
                return true;
            }
            i = i + 1;
        }
        false
    }

    /// Encode to the wire form.
    pub fn encode(&self) -> (out: Vec<u8>)
        ensures
            out@ == encode_file(self@),
    {
        let mut out: Vec<u8> = Vec::new();
        out.push(70u8);
        out.push(66u8);
        out.push(76u8);
        out.push(75u8);
        out.push(1u8);
        put_be16(&mut out, self.blocks.len() as u16);
        let ghost header = out@;
        let mut i: usize = 0;
        while i < self.blocks.len()
            invariant
                i <= self.blocks@.len(),
                out@ == header + encode_blocks(self@.take(i as int)),
            decreases self.blocks@.len() - i,
        {
            let b = &self.blocks[i];
            let ghost before = out@;
            put_bytes(&mut out, b.tag.as_slice());
            put_be32(&mut out, b.data.len() as u32);
            put_bytes(&mut out, b.data.as_slice());
            proof {
                lemma_encode_blocks_push(self@.take(i as int), self@[i as int]);
                assert(self@.take(i + 1) == self@.take(i as int).push(self@[i as int]));
                assert(out@ == before + encode_block(self@[i as int]));
            }
            i = i + 1;
        }
        assert(self@.take(i as int) == self@);
        assert(header == magic() + seq![format_version()] + be16(self@.len() as u16));
        out
    }

    /// Decode from the wire form.
    pub fn decode(bytes: &[u8]) -> (r: Result<Self, BlockError>)
        ensures
            match r {
                Ok(f) => decode_spec(bytes@) == Ok::<Seq<BlockView>, BlockError>(f@),
                Err(e) => decode_spec(bytes@) == Err::<Seq<BlockView>, BlockError>(e),
            },
    {
        let n = bytes.len();
        if n < 4 {
            return Err(BlockError::Truncated);
        }
        if !(bytes[0] == 70u8 && bytes[1] == 66u8 && bytes[2] == 76u8 && bytes[3] == 75u8) {
            proof {
                if bytes@.take(4) == magic() {
                    assert(bytes@.take(4)[0] == 70u8);
                    assert(bytes@.take(4)[1] == 66u8);
                    assert(bytes@.take(4)[2] == 76u8);
                    assert(bytes@.take(4)[3] == 75u8);
                }
            }
            return Err(BlockError::BadMagic);
        }
        assert(bytes@.take(4) =~= magic());
        if n < 5 {
            return Err(BlockError::Truncated);
        }
        let version = bytes[4];
        if version != 1u8 {
            return Err(BlockError::Version(version));
        }
        if n < 7 {
            return Err(BlockError::Truncated);
        }
        let count: u16 = (bytes[5] as u16) * 256 + (bytes[6] as u16);
        let mut blocks: Vec<Block> = Vec::new();
        let mut p: usize = 7;
        let mut k: u16 = 0;
        let ghost total = parse_blocks(bytes@.skip(7), count as nat);
        while k < count
            invariant
                n == bytes@.len(),
                n >= 7,
                bytes@.take(4) == magic(),
                bytes@[4] == format_version(),
                7 <= p <= n,
                k <= count,
                count == be16_value(bytes@[5], bytes@[6]),
                total == parse_blocks(bytes@.skip(7), count as nat),
                total == match parse_blocks(bytes@.skip(p as int), (count - k) as nat) {
                    Some(bs) => Some(blocks@.map_values(|b: Block| b@) + bs),
                    None => None::<Seq<BlockView>>,
                },
            decreases count - k,
        {
            let ghost rest = bytes@.skip(p as int);
            if n - p < 8 {
                assert(rest.len() < 8);
                assert(parse_blocks(rest, (count - k) as nat) is None);
                assert(total is None);
                return Err(BlockError::Truncated);
            }
            let tag: Tag = [bytes[p], bytes[p + 1], bytes[p + 2], bytes[p + 3]];
            let len = get_be32(bytes, p + 4) as usize;
            assert(rest.subrange(4, 8) == bytes@.subrange(p + 4, p + 8));
            if n - p - 8 < len {
                assert(parse_blocks(rest, (count - k) as nat) is None);
                assert(total is None);
                return Err(BlockError::Truncated);
            }
            let data = copy_range(bytes, p + 8, len);
            let ghost b: BlockView = (rest.subrange(0, 4), rest.subrange(8, 8 + len));
            assert(tag@ =~= rest.subrange(0, 4));
            assert(data@ =~= rest.subrange(8, 8 + len));
            let ghost old_blocks = blocks@;
            blocks.push(Block { tag, data });
            assert(rest.skip(8 + len) =~= bytes@.skip(p + 8 + len));
            assert(blocks@.map_values(|b: Block| b@) =~= old_blocks.map_values(|b: Block| b@).push(b));
            proof {
                match parse_blocks(rest.skip(8 + len), (count - k - 1) as nat) {
                    Some(bs) => {
                        assert(old_blocks.map_values(|b: Block| b@) + (seq![b] + bs)
                            =~= old_blocks.map_values(|b: Block| b@).push(b) + bs);
                    },
                    None => {},
                }
            }
            p = p + 8 + len;
            k = k + 1;
        }
        proof {
            assert(parse_blocks(bytes@.skip(p as int), 0) == Some(Seq::<BlockView>::empty()));
            assert(blocks@.map_values(|b: Block| b@) + Seq::<BlockView>::empty() =~= blocks@.map_values(|b: Block| b@));
        }
        Ok(BlockFile { blocks })
    }

    /// Whether a byte stream looks like a block container (the magic prefix).
    pub fn is_block_container(bytes: &[u8]) -> (r: bool)
        ensures
            r == (bytes@.len() >= 4 && bytes@.take(4) == magic()),
    {
        let r = bytes.len() >= 4 && bytes[0] == 70u8 && bytes[1] == 66u8 && bytes[2] == 76u8 && bytes[3] == 75u8;
        proof {
            if r {
                assert(bytes@.take(4) =~= magic());
            } else if bytes@.len() >= 4 && bytes@.take(4) == magic() {
                assert(bytes@.take(4)[0] == 70u8);
                assert(bytes@.take(4)[1] == 66u8);
                assert(bytes@.take(4)[2] == 76u8);
                assert(bytes@.take(4)[3] == 75u8);
            }
        }
        r
    }
}

} // verus!

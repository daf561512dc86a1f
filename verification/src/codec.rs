//! The extra-account descriptor list and its binary codec.
//!
//! An encoded list is a type discriminator (eight bytes), a little-endian
//! length field over the rest, a little-endian descriptor count, then one
//! fixed-width record per descriptor: a tag byte (0 = fixed address,
//! 1 = program-derived, 2 = externally derived), a 32-byte payload, and two
//! flag bytes.  Order is significant and preserved: it is the positional
//! contract with the caller that later supplies the accounts.

use vstd::prelude::*;

use crate::HookError;
use crate::addr::Address;
use crate::addr::bytes_eq;
use crate::addr::sha256;
use crate::addr::sha256_of;
use vstd::string::StringSliceAdditionalSpecFns;

verus! {

/// One component of a derivation recipe.
#[derive(Clone, Debug, PartialEq, Eq)]
pub enum Seed {
    /// A literal hard-coded seed.
    Literal {
        /// The literal bytes.
        bytes: Vec<u8>,
    },
    /// The address of the account at this position in the currently known
    /// account list.
    AccountKey {
        /// The position in the account list.
        index: u8,
    },
}

/// The mathematical value of a [`Seed`].
pub enum SeedV {
    /// A literal hard-coded seed.
    Literal { bytes: Seq<u8> },
    /// The address of the account at a position of the known account list.
    AccountKey { index: u8 },
}

impl View for Seed {
    type V = SeedV;

    open spec fn view(&self) -> SeedV {
        match self {
            Seed::Literal { bytes } => SeedV::Literal { bytes: bytes@ },
            Seed::AccountKey { index } => SeedV::AccountKey { index: *index },
        }
    }
}

impl DeepView for Seed {
    type V = SeedV;

    open spec fn deep_view(&self) -> SeedV {
        self.view()
    }
}

/// One extra account descriptor: how the address of one required extra
/// account is fixed or derived.
#[derive(Clone, Debug, PartialEq, Eq)]
pub enum ExtraAccountMeta {
    /// A literal address, independent of any transfer context.
    Fixed {
        /// The required address.
        address: Address,
        /// Whether the account must sign.
        is_signer: bool,
        /// Whether the account must be writable.
        is_writable: bool,
    },
    /// An address derived under this program's namespace from a seed recipe.
    ProgramDerived {
        /// The derivation recipe.
        seeds: Vec<Seed>,
        /// Whether the account must sign.
        is_signer: bool,
        /// Whether the account must be writable.
        is_writable: bool,
    },
    /// An address derived under another program's namespace, that owner
    /// program being the account at a position of the known account list.
    ExternalDerived {
        /// The position of the owner program in the account list.
        program_index: u8,
        /// The derivation recipe.
        seeds: Vec<Seed>,
        /// Whether the account must sign.
        is_signer: bool,
        /// Whether the account must be writable.
        is_writable: bool,
    },
}

/// The mathematical value of an [`ExtraAccountMeta`].
pub enum MetaV {
    /// A literal address.
    Fixed { address: Seq<u8>, is_signer: bool, is_writable: bool },
    /// An address derived under this program's namespace.
    ProgramDerived { seeds: Seq<SeedV>, is_signer: bool, is_writable: bool },
    /// An address derived under another program's namespace.
    ExternalDerived { program_index: u8, seeds: Seq<SeedV>, is_signer: bool, is_writable: bool },
}

impl View for ExtraAccountMeta {
    type V = MetaV;

    open spec fn view(&self) -> MetaV {
        match self {
            ExtraAccountMeta::Fixed { address, is_signer, is_writable } => MetaV::Fixed {
                address: address@,
                is_signer: *is_signer,
                is_writable: *is_writable,
            },
            ExtraAccountMeta::ProgramDerived { seeds, is_signer, is_writable } => {
                MetaV::ProgramDerived {
                    seeds: seeds.deep_view(),
                    is_signer: *is_signer,
                    is_writable: *is_writable,
                }
            },
            ExtraAccountMeta::ExternalDerived { program_index, seeds, is_signer, is_writable } => {
                MetaV::ExternalDerived {
                    program_index: *program_index,
                    seeds: seeds.deep_view(),
                    is_signer: *is_signer,
                    is_writable: *is_writable,
                }
            },
        }
    }
}

impl DeepView for ExtraAccountMeta {
    type V = MetaV;

    open spec fn deep_view(&self) -> MetaV {
        self.view()
    }
}

/// The byte encoding one flag.
pub open spec fn bool_byte(b: bool) -> u8 {
    if b {
        1u8
    } else {
        0u8
    }
}

/// The encoding of one seed: a tag byte, then its fields.
pub open spec fn seed_bytes(s: SeedV) -> Seq<u8> {
    match s {
        SeedV::Literal { bytes } => seq![1u8, bytes.len() as u8] + bytes,
        SeedV::AccountKey { index } => seq![3u8, index],
    }
}

/// The concatenated encoding of a seed recipe, in order.
pub open spec fn seeds_bytes(ss: Seq<SeedV>) -> Seq<u8>
    decreases ss.len(),
{
    if ss.len() == 0 {
        Seq::empty()
    } else {
        seed_bytes(ss[0]) + seeds_bytes(ss.skip(1))
    }
}

/// A run of zero bytes.
pub open spec fn zero_bytes(n: int) -> Seq<u8> {
    Seq::new(n as nat, |i: int| 0u8)
}

/// A seed recipe packed into a fixed-width payload, zero-padded.
pub open spec fn config_bytes(ss: Seq<SeedV>, width: int) -> Seq<u8> {
    seeds_bytes(ss) + zero_bytes(width - seeds_bytes(ss).len())
}

/// A seed that the codec can reproduce: a literal fits the payload with its
/// tag and length byte.
pub open spec fn wf_seed(s: SeedV) -> bool {
    match s {
        SeedV::Literal { bytes } => bytes.len() <= 30,
        SeedV::AccountKey { .. } => true,
    }
}

/// All seeds of a recipe are well-formed.
pub open spec fn wf_seeds(ss: Seq<SeedV>) -> bool {
    forall|i: int| 0 <= i < ss.len() ==> wf_seed(#[trigger] ss[i])
}

/// Decodes a packed seed recipe: reads seeds in order and stops at a zero
/// tag or at the end of the payload.
pub open spec fn seeds_decode(b: Seq<u8>) -> Option<Seq<SeedV>>
    decreases b.len(),
{
    if b.len() == 0 {
        Some(Seq::empty())
    } else if b[0] == 0 {
        Some(Seq::empty())
    } else if b[0] == 1 {
        if b.len() < 2 {
            None
        } else {
            let n = b[1] as int;
            if b.len() < 2 + n {
                None
            } else {
                match seeds_decode(b.skip(2 + n)) {
                    Some(rest) => Some(
                        seq![SeedV::Literal { bytes: b.subrange(2, 2 + n) }] + rest,
                    ),
                    None => None,
                }
            }
        }
    } else if b[0] == 3 {
        if b.len() < 2 {
            None
        } else {
            match seeds_decode(b.skip(2)) {
                Some(rest) => Some(seq![SeedV::AccountKey { index: b[1] }] + rest),
                None => None,
            }
        }
    } else {
        None
    }
}

/// Decoding a packed recipe reproduces the original ordered seeds exactly.
pub proof fn lemma_seeds_roundtrip(ss: Seq<SeedV>, width: int)
    requires
        wf_seeds(ss),
        seeds_bytes(ss).len() <= width,
    ensures
        config_bytes(ss, width).len() == width,
        seeds_decode(config_bytes(ss, width)) == Some(ss),
    decreases ss.len(),
{
    let b = config_bytes(ss, width);
    if ss.len() == 0 {
        if width != 0 {
            assert(b[0] == 0);
        }
        assert(seeds_decode(b) == Some(Seq::<SeedV>::empty()));
        assert(ss =~= Seq::<SeedV>::empty());
    } else {
        let s = ss[0];
        let rest = ss.skip(1);
        assert(seeds_bytes(ss) == seed_bytes(s) + seeds_bytes(rest));
        let k = seed_bytes(s).len() as int;
        assert(b.len() == width);
        match s {
            SeedV::Literal { bytes } => {
                assert(b[0] == 1);
                assert(b[1] == bytes.len() as u8);
                let n = b[1] as int;
                assert(n == bytes.len());
                assert(b.len() >= 2 + n);
                assert(b.subrange(2, 2 + n) =~= bytes);
                assert(b.skip(2 + n) =~= config_bytes(rest, width - (2 + n)));
                lemma_seeds_roundtrip(rest, width - (2 + n));
                assert(seeds_decode(b) == Some(seq![SeedV::Literal { bytes }] + rest));
                assert(seq![SeedV::Literal { bytes }] + rest =~= ss);
            },
            SeedV::AccountKey { index } => {
                assert(b[0] == 3);
                assert(b[1] == index);
                assert(b.skip(2) =~= config_bytes(rest, width - 2));
                lemma_seeds_roundtrip(rest, width - 2);
                assert(seeds_decode(b) == Some(seq![SeedV::AccountKey { index }] + rest));
                assert(seq![SeedV::AccountKey { index }] + rest =~= ss);
            },
        }
    }
}

/// The width of one encoded descriptor record.
pub open spec fn meta_len() -> int {
    35
}

/// A descriptor that the codec can reproduce: its payload fits its
/// fixed-width slot.
pub open spec fn wf_meta(m: MetaV) -> bool {
    match m {
        MetaV::Fixed { address, .. } => address.len() == 32,
        MetaV::ProgramDerived { seeds, .. } => wf_seeds(seeds) && seeds_bytes(seeds).len() <= 32,
        MetaV::ExternalDerived { seeds, .. } => wf_seeds(seeds) && seeds_bytes(seeds).len() <= 31,
    }
}

/// The encoding of one descriptor: tag, payload, flags; 35 bytes in all.
pub open spec fn meta_bytes(m: MetaV) -> Seq<u8> {
    match m {
        MetaV::Fixed { address, is_signer, is_writable } => seq![0u8] + address + seq![
            bool_byte(is_signer),
            bool_byte(is_writable),
        ],
        MetaV::ProgramDerived { seeds, is_signer, is_writable } => seq![1u8] + config_bytes(
            seeds,
            32,
        ) + seq![bool_byte(is_signer), bool_byte(is_writable)],
        MetaV::ExternalDerived { program_index, seeds, is_signer, is_writable } => seq![
            2u8,
            program_index,
        ] + config_bytes(seeds, 31) + seq![bool_byte(is_signer), bool_byte(is_writable)],
    }
}

/// Decodes one 35-byte descriptor record.
pub open spec fn meta_decode(b: Seq<u8>) -> Option<MetaV> {
    if b.len() != meta_len() {
        None
    } else if b[0] == 0 {
        Some(
            MetaV::Fixed {
                address: b.subrange(1, 33),
                is_signer: b[33] != 0,
                is_writable: b[34] != 0,
            },
        )
    } else if b[0] == 1 {
        match seeds_decode(b.subrange(1, 33)) {
            Some(seeds) => Some(
                MetaV::ProgramDerived { seeds, is_signer: b[33] != 0, is_writable: b[34] != 0 },
            ),
            None => None,
        }
    } else if b[0] == 2 {
        match seeds_decode(b.subrange(2, 33)) {
            Some(seeds) => Some(
                MetaV::ExternalDerived {
                    program_index: b[1],
                    seeds,
                    is_signer: b[33] != 0,
                    is_writable: b[34] != 0,
                },
            ),
            None => None,
        }
    } else {
        None
    }
}

/// Decoding an encoded descriptor reproduces it exactly.
pub proof fn lemma_meta_roundtrip(m: MetaV)
    requires
        wf_meta(m),
    ensures
        meta_bytes(m).len() == meta_len(),
        meta_decode(meta_bytes(m)) == Some(m),
{
    let b = meta_bytes(m);
    match m {
        MetaV::Fixed { address, is_signer, is_writable } => {
            assert(b.subrange(1, 33) =~= address);
            assert(b[33] != 0 <==> is_signer);
            assert(b[34] != 0 <==> is_writable);
        },
        MetaV::ProgramDerived { seeds, is_signer, is_writable } => {
            lemma_seeds_roundtrip(seeds, 32);
            assert(b.subrange(1, 33) =~= config_bytes(seeds, 32));
            assert(b[33] != 0 <==> is_signer);
            assert(b[34] != 0 <==> is_writable);
        },
        MetaV::ExternalDerived { program_index, seeds, is_signer, is_writable } => {
            lemma_seeds_roundtrip(seeds, 31);
            assert(b.subrange(2, 33) =~= config_bytes(seeds, 31));
            assert(b[0] == 2 && b[1] == program_index);
            assert(b[33] != 0 <==> is_signer);
            assert(b[34] != 0 <==> is_writable);
        },
    }
}

/// The preimage whose digest identifies an encoded descriptor list.
pub open spec fn list_disc_preimage() -> Seq<u8> {
    "spl-transfer-hook-interface:execute".spec_bytes()
}

/// The eight type-discriminator bytes that prefix an encoded list.
pub open spec fn list_disc() -> Seq<u8> {
    sha256_of(list_disc_preimage()).take(8)
}

/// The eight discriminator bytes that identify an encoded list and prefix
/// an execute instruction.
pub fn execute_discriminator() -> (r: Vec<u8>)
    ensures
        r@ == list_disc(),
        r@.len() == 8,
{
    let digest = sha256("spl-transfer-hook-interface:execute".as_bytes());
    let r = vstd::slice::slice_to_vec(vstd::slice::slice_subrange(digest.as_slice(), 0, 8));
    proof {
        assert(r@ =~= list_disc());
    }
    r
}

/// The width of the header: discriminator, length field, count field.
pub open spec fn header_len() -> int {
    16
}

/// A little-endian four-byte encoding.
pub open spec fn u32_le(x: int) -> Seq<u8> {
    seq![
        (x % 256) as u8,
        ((x / 256) % 256) as u8,
        ((x / 65536) % 256) as u8,
        ((x / 16777216) % 256) as u8,
    ]
}

/// The value read from four little-endian bytes.
pub open spec fn u32_from_le(s: Seq<u8>) -> int {
    s[0] + s[1] * 256 + s[2] * 65536 + s[3] * 16777216
}

/// Reading back four little-endian bytes yields the encoded value.
pub proof fn lemma_u32_le_roundtrip(x: int)
    requires
        0 <= x < 0x1_0000_0000,
    ensures
        u32_le(x).len() == 4,
        u32_from_le(u32_le(x)) == x,
{
    assert(u32_from_le(u32_le(x)) == x) by (nonlinear_arith)
        requires
            0 <= x < 0x1_0000_0000,
    ;
}

/// The most descriptors an encoded list may hold.
pub open spec fn max_metas() -> int {
    0xff_ffff
}

/// A descriptor list that the codec can reproduce.
pub open spec fn wf_metas(l: Seq<MetaV>) -> bool {
    &&& l.len() <= max_metas()
    &&& forall|i: int| 0 <= i < l.len() ==> wf_meta(#[trigger] l[i])
}

/// The concatenated encoding of the descriptors, in order.
pub open spec fn metas_bytes(l: Seq<MetaV>) -> Seq<u8>
    decreases l.len(),
{
    if l.len() == 0 {
        Seq::empty()
    } else {
        meta_bytes(l[0]) + metas_bytes(l.skip(1))
    }
}

/// Concatenation of descriptor encodings distributes over list concatenation.
pub proof fn lemma_metas_bytes_concat(a: Seq<MetaV>, b: Seq<MetaV>)
    ensures
        metas_bytes(a + b) == metas_bytes(a) + metas_bytes(b),
    decreases a.len(),
{
    if a.len() == 0 {
        assert(a + b =~= b);
        assert(metas_bytes(a) + metas_bytes(b) =~= metas_bytes(b));
    } else {
        assert((a + b).skip(1) =~= a.skip(1) + b);
        lemma_metas_bytes_concat(a.skip(1), b);
        assert(metas_bytes(a + b) =~= metas_bytes(a) + metas_bytes(b));
    }
}

/// The length of the concatenated descriptor encodings, when each descriptor
/// is well-formed.
pub proof fn lemma_metas_bytes_len(l: Seq<MetaV>)
    requires
        forall|i: int| 0 <= i < l.len() ==> wf_meta(#[trigger] l[i]),
    ensures
        metas_bytes(l).len() == meta_len() * l.len(),
    decreases l.len(),
{
    if l.len() == 0 {
    } else {
        lemma_meta_roundtrip(l[0]);
        lemma_metas_bytes_len(l.skip(1));
    }
}

/// The record of descriptor `i` within the concatenated encodings.
pub proof fn lemma_metas_bytes_index(l: Seq<MetaV>, i: int)
    requires
        forall|j: int| 0 <= j < l.len() ==> wf_meta(#[trigger] l[j]),
        0 <= i < l.len(),
    ensures
        metas_bytes(l).subrange(meta_len() * i, meta_len() * (i + 1)) == meta_bytes(l[i]),
    decreases i,
{
    lemma_metas_bytes_len(l);
    lemma_meta_roundtrip(l[0]);
    if i == 0 {
        lemma_metas_bytes_len(l.skip(1));
        assert(metas_bytes(l).subrange(0, meta_len()) =~= meta_bytes(l[0]));
    } else {
        lemma_metas_bytes_index(l.skip(1), i - 1);
        lemma_metas_bytes_len(l.skip(1));
        assert(metas_bytes(l).subrange(meta_len() * i, meta_len() * (i + 1)) =~= metas_bytes(
            l.skip(1),
        ).subrange(meta_len() * (i - 1), meta_len() * i));
        assert(l.skip(1)[i - 1] == l[i]);
    }
}

/// The full encoding of a descriptor list: discriminator, length field,
/// count, then each descriptor's record in input order.
pub open spec fn encode_bytes(l: Seq<MetaV>) -> Seq<u8> {
    list_disc() + u32_le(4 + meta_len() * l.len()) + u32_le(l.len() as int) + metas_bytes(l)
}

/// Decodes an encoded descriptor list, or nothing when the buffer is not a
/// well-formed encoding.
pub open spec fn decode_spec(b: Seq<u8>) -> Option<Seq<MetaV>> {
    if b.len() < header_len() {
        None
    } else if b.take(8) != list_disc() {
        None
    } else {
        let length = u32_from_le(b.subrange(8, 12));
        let count = u32_from_le(b.subrange(12, 16));
        if length != 4 + meta_len() * count {
            None
        } else if b.len() != header_len() + meta_len() * count {
            None
        } else if forall|i: int|
            0 <= i < count ==> #[trigger] meta_decode(
                b.subrange(header_len() + meta_len() * i, header_len() + meta_len() * (i + 1)),
            ) is Some {
            Some(
                Seq::new(
                    count as nat,
                    |i: int| meta_decode(
                        b.subrange(
                            header_len() + meta_len() * i,
                            header_len() + meta_len() * (i + 1),
                        ),
                    )->Some_0,
                ),
            )
        } else {
            None
        }
    }
}

/// The exact byte length of an encoded list of `count` descriptors.
pub open spec fn size_of_spec(count: int) -> int {
    header_len() + meta_len() * count
}

/// Round trip: decoding an encoded descriptor list reproduces the original
/// ordered descriptors exactly.
pub proof fn lemma_encode_then_decode(l: Seq<MetaV>)
    requires
        wf_metas(l),
        sha256_of(list_disc_preimage()).len() == 32,
    ensures
        encode_bytes(l).len() == size_of_spec(l.len() as int),
        decode_spec(encode_bytes(l)) == Some(l),
{
    let b = encode_bytes(l);
    lemma_metas_bytes_len(l);
    lemma_u32_le_roundtrip(4 + meta_len() * l.len());
    lemma_u32_le_roundtrip(l.len() as int);
    assert(b.take(8) =~= list_disc());
    assert(b.subrange(8, 12) =~= u32_le(4 + meta_len() * l.len()));
    assert(b.subrange(12, 16) =~= u32_le(l.len() as int));
    let count = u32_from_le(b.subrange(12, 16));
    assert(count == l.len());
    assert forall|i: int| 0 <= i < count implies #[trigger] meta_decode(
        b.subrange(header_len() + meta_len() * i, header_len() + meta_len() * (i + 1)),
    ) == Some(l[i]) by {
        lemma_metas_bytes_index(l, i);
        assert(b.subrange(header_len() + meta_len() * i, header_len() + meta_len() * (i + 1))
            =~= metas_bytes(l).subrange(meta_len() * i, meta_len() * (i + 1)));
        lemma_meta_roundtrip(l[i]);
    }
    let dec = decode_spec(b);
    assert(dec is Some);
    assert(dec->Some_0 =~= l);
}

/// The encoded seeds of a recipe contain the encoding of each of its seeds.
pub proof fn lemma_seed_bytes_bound(ss: Seq<SeedV>, i: int)
    requires
        0 <= i < ss.len(),
    ensures
        seeds_bytes(ss).len() >= seed_bytes(ss[i]).len(),
    decreases i,
{
    if i > 0 {
        lemma_seed_bytes_bound(ss.skip(1), i - 1);
    }
}

/// Concatenation of seed encodings distributes over recipe concatenation.
pub proof fn lemma_seeds_bytes_concat(a: Seq<SeedV>, b: Seq<SeedV>)
    ensures
        seeds_bytes(a + b) == seeds_bytes(a) + seeds_bytes(b),
    decreases a.len(),
{
    if a.len() == 0 {
        assert(a + b =~= b);
        assert(seeds_bytes(a) + seeds_bytes(b) =~= seeds_bytes(b));
    } else {
        assert((a + b).skip(1) =~= a.skip(1) + b);
        lemma_seeds_bytes_concat(a.skip(1), b);
        assert(seeds_bytes(a + b) =~= seeds_bytes(a) + seeds_bytes(b));
    }
}

/// The encoding of a one-seed recipe is that seed's encoding.
pub proof fn lemma_seeds_bytes_singleton(s: SeedV)
    ensures
        seeds_bytes(seq![s]) == seed_bytes(s),
{
    assert(seq![s].skip(1) =~= Seq::<SeedV>::empty());
    assert(seeds_bytes(Seq::<SeedV>::empty()) =~= Seq::<u8>::empty());
    assert(seeds_bytes(seq![s]) =~= seed_bytes(s));
}

/// The encoding of a one-descriptor list is that descriptor's record.
pub proof fn lemma_metas_bytes_singleton(m: MetaV)
    ensures
        metas_bytes(seq![m]) == meta_bytes(m),
{
    assert(seq![m].skip(1) =~= Seq::<MetaV>::empty());
    assert(metas_bytes(Seq::<MetaV>::empty()) =~= Seq::<u8>::empty());
    assert(metas_bytes(seq![m]) =~= meta_bytes(m));
}

/// Appends the bytes of a slice to a vector.
pub fn extend_bytes(out: &mut Vec<u8>, b: &[u8])
    ensures
        final(out)@ == old(out)@ + b@,
{
    let mut i: usize = 0;
    while i < b.len()
        invariant
            i <= b@.len(),
            out@ == old(out)@ + b@.take(i as int),
        decreases b@.len() - i,
    {
        out.push(b[i]);
        proof {
            assert(old(out)@ + b@.take(i + 1) =~= (old(out)@ + b@.take(i as int)).push(b@[i as int]));
        }
        i += 1;
    }
    proof {
        assert(b@.take(b@.len() as int) =~= b@);
    }
}

/// The byte length of the encoding of a recipe, when it can fit a payload;
/// nothing when it cannot.
pub fn seeds_encoded_len(seeds: &Vec<Seed>) -> (r: Option<usize>)
    ensures
        match r {
            Some(n) => n == seeds_bytes(seeds.deep_view()).len() && n <= 32 && wf_seeds(
                seeds.deep_view(),
            ),
            None => seeds_bytes(seeds.deep_view()).len() > 32,
        },
{
    let ghost dv = seeds.deep_view();
    let mut total: usize = 0;
    let mut i: usize = 0;
    while i < seeds.len()
        invariant
            i <= seeds@.len(),
            dv == seeds.deep_view(),
            dv.len() == seeds@.len(),
            forall|j: int| 0 <= j < dv.len() ==> dv[j] == seeds@[j]@,
            total == seeds_bytes(dv.take(i as int)).len(),
            total <= 32,
            wf_seeds(dv.take(i as int)),
        decreases seeds@.len() - i,
    {
        let sz: usize = match &seeds[i] {
            Seed::Literal { bytes } => {
                if bytes.len() > 30 {
                    proof {
                        lemma_seeds_bytes_concat(dv.take(i as int), dv.skip(i as int));
                        assert(dv.take(i as int) + dv.skip(i as int) =~= dv);
                        lemma_seed_bytes_bound(dv.skip(i as int), 0);
                        assert(dv.skip(i as int)[0] == dv[i as int]);
                    }
                    return None;
                }
                2 + bytes.len()
            },
            Seed::AccountKey { .. } => 2,
        };
        proof {
            lemma_seeds_bytes_concat(dv.take(i as int), seq![dv[i as int]]);
            assert(dv.take(i as int) + seq![dv[i as int]] =~= dv.take(i + 1));
            lemma_seeds_bytes_singleton(dv[i as int]);
            assert(seed_bytes(dv[i as int]).len() == sz);
        }
        if total + sz > 32 {
            proof {
                lemma_seeds_bytes_concat(dv.take(i + 1), dv.skip(i + 1));
                assert(dv.take(i + 1) + dv.skip(i + 1) =~= dv);
            }
            return None;
        }
        total = total + sz;
        proof {
            assert(wf_seeds(dv.take(i + 1)));
        }
        i += 1;
    }
    proof {
        assert(dv.take(dv.len() as int) =~= dv);
    }
    Some(total)
}

/// Appends a recipe packed into a fixed-width, zero-padded payload.
pub fn append_config(out: &mut Vec<u8>, seeds: &Vec<Seed>, width: usize)
    requires
        width <= 32,
        seeds_bytes(seeds.deep_view()).len() <= width,
    ensures
        final(out)@ == old(out)@ + config_bytes(seeds.deep_view(), width as int),
{
    let ghost dv = seeds.deep_view();
    let ghost base = out@;
    let start: usize = out.len();
    let mut i: usize = 0;
    while i < seeds.len()
        invariant
            i <= seeds@.len(),
            dv == seeds.deep_view(),
            dv.len() == seeds@.len(),
            forall|j: int| 0 <= j < dv.len() ==> dv[j] == seeds@[j]@,
            width <= 32,
            seeds_bytes(dv).len() <= width,
            out@ == base + seeds_bytes(dv.take(i as int)),
            base.len() == start,
        decreases seeds@.len() - i,
    {
        match &seeds[i] {
            Seed::Literal { bytes } => {
                proof {
                    lemma_seeds_bytes_concat(dv.take(i as int), dv.skip(i as int));
                    assert(dv.take(i as int) + dv.skip(i as int) =~= dv);
                    lemma_seed_bytes_bound(dv.skip(i as int), 0);
                    assert(dv.skip(i as int)[0] == dv[i as int]);
                    assert(seed_bytes(dv[i as int]).len() <= width);
                    assert(dv[i as int] == (SeedV::Literal { bytes: bytes@ }));
                    assert(seed_bytes(dv[i as int]).len() == 2 + bytes@.len());
                    assert(bytes@.len() <= 30);
                }
                out.push(1);
                out.push(bytes.len() as u8);
                extend_bytes(out, bytes.as_slice());
            },
            Seed::AccountKey { index } => {
                out.push(3);
                out.push(*index);
            },
        }
        proof {
            lemma_seeds_bytes_concat(dv.take(i as int), seq![dv[i as int]]);
            assert(dv.take(i as int) + seq![dv[i as int]] =~= dv.take(i + 1));
            lemma_seeds_bytes_singleton(dv[i as int]);
            assert(out@ =~= base + seeds_bytes(dv.take(i + 1)));
        }
        i += 1;
    }
    proof {
        assert(dv.take(dv.len() as int) =~= dv);
    }
    let ghost blen = seeds_bytes(dv).len();
    let mut k: usize = out.len() - start;
    proof {
        assert(k == blen);
        assert(out@ =~= base + seeds_bytes(dv) + zero_bytes(k - blen));
    }
    while k < width
        invariant
            blen <= k,
            k <= width,
            out@ == base + seeds_bytes(dv) + zero_bytes(k - blen),
        decreases width - k,
    {
        out.push(0);
        k += 1;
        proof {
            assert(out@ =~= base + seeds_bytes(dv) + zero_bytes(k - blen));
        }
    }
    proof {
        assert(out@ =~= base + config_bytes(dv, width as int));
    }
}

/// Appends the four little-endian bytes of a value.
pub fn push_u32_le(out: &mut Vec<u8>, x: u32)
    ensures
        final(out)@ == old(out)@ + u32_le(x as int),
{
    out.push((x % 256) as u8);
    out.push(((x / 256) % 256) as u8);
    out.push(((x / 65536) % 256) as u8);
    out.push(((x / 16777216) % 256) as u8);
    proof {
        assert(out@ =~= old(out)@ + u32_le(x as int));
    }
}

/// Appends the 35-byte record of one descriptor.
pub fn append_meta(out: &mut Vec<u8>, m: &ExtraAccountMeta)
    requires
        wf_meta(m@),
    ensures
        final(out)@ == old(out)@ + meta_bytes(m@),
{
    match m {
        ExtraAccountMeta::Fixed { address, is_signer, is_writable } => {
            out.push(0);
            extend_bytes(out, address.bytes.as_slice());
            out.push(if *is_signer { 1 } else { 0 });
            out.push(if *is_writable { 1 } else { 0 });
            proof {
                assert(out@ =~= old(out)@ + meta_bytes(m@));
            }
        },
        ExtraAccountMeta::ProgramDerived { seeds, is_signer, is_writable } => {
            out.push(1);
            append_config(out, seeds, 32);
            out.push(if *is_signer { 1 } else { 0 });
            out.push(if *is_writable { 1 } else { 0 });
            proof {
                assert(out@ =~= old(out)@ + meta_bytes(m@));
            }
        },
        ExtraAccountMeta::ExternalDerived { program_index, seeds, is_signer, is_writable } => {
            out.push(2);
            out.push(*program_index);
            append_config(out, seeds, 31);
            out.push(if *is_signer { 1 } else { 0 });
            out.push(if *is_writable { 1 } else { 0 });
            proof {
                assert(out@ =~= old(out)@ + meta_bytes(m@));
            }
        },
    }
}

/// Encodes a descriptor list into its persisted binary form.
pub fn encode(metas: &Vec<ExtraAccountMeta>) -> (r: Vec<u8>)
    requires
        wf_metas(metas.deep_view()),
    ensures
        r@ == encode_bytes(metas.deep_view()),
        r@.len() == size_of_spec(metas.deep_view().len() as int),
{
    let ghost dv = metas.deep_view();
    let mut out: Vec<u8> = Vec::new();
    let digest = sha256("spl-transfer-hook-interface:execute".as_bytes());
    extend_bytes(&mut out, vstd::slice::slice_subrange(digest.as_slice(), 0, 8));
    proof {
        assert(digest@.subrange(0, 8) =~= list_disc());
        assert(out@ =~= list_disc());
    }
    let count: usize = metas.len();
    push_u32_le(&mut out, 4 + 35 * (count as u32));
    push_u32_le(&mut out, count as u32);
    let ghost header = out@;
    let mut i: usize = 0;
    while i < metas.len()
        invariant
            i <= metas@.len(),
            dv == metas.deep_view(),
            dv.len() == metas@.len(),
            forall|j: int| 0 <= j < dv.len() ==> dv[j] == metas@[j]@,
            wf_metas(dv),
            out@ == header + metas_bytes(dv.take(i as int)),
        decreases metas@.len() - i,
    {
        proof {
            assert(metas@[i as int]@ == dv[i as int]);
        }
        append_meta(&mut out, &metas[i]);
        proof {
            lemma_metas_bytes_concat(dv.take(i as int), seq![dv[i as int]]);
            assert(dv.take(i as int) + seq![dv[i as int]] =~= dv.take(i + 1));
            lemma_metas_bytes_singleton(dv[i as int]);
            assert(out@ =~= header + metas_bytes(dv.take(i + 1)));
        }
        i += 1;
    }
    proof {
        assert(dv.take(dv.len() as int) =~= dv);
        assert(out@ =~= encode_bytes(dv));
        lemma_metas_bytes_len(dv);
    }
    out
}

/// The exact byte size to allocate for an encoded list of `count`
/// descriptors.
pub fn size_of(count: usize) -> (r: Result<usize, HookError>)
    ensures
        match r {
            Ok(n) => count <= max_metas() && n == size_of_spec(count as int),
            Err(e) => count > max_metas() && e == HookError::MalformedInput,
        },
{
    if count > 0xff_ffff {
        return Err(HookError::MalformedInput);
    }
    Ok(16 + 35 * count)
}

impl ExtraAccountMeta {
    /// A descriptor for a literal address.
    pub fn new_with_pubkey(address: &Address, is_signer: bool, is_writable: bool) -> (r:
        ExtraAccountMeta)
        requires
            address.wf(),
        ensures
            r@ == (MetaV::Fixed { address: address@, is_signer, is_writable }),
            wf_meta(r@),
    {
        ExtraAccountMeta::Fixed { address: address.dup(), is_signer, is_writable }
    }

    /// A descriptor for an address derived under this program's namespace.
    /// Fails when the recipe does not fit its payload slot.
    pub fn new_with_seeds(seeds: Vec<Seed>, is_signer: bool, is_writable: bool) -> (r: Result<
        ExtraAccountMeta,
        HookError,
    >)
        ensures
            match r {
                Ok(m) => m@ == (MetaV::ProgramDerived {
                    seeds: seeds.deep_view(),
                    is_signer,
                    is_writable,
                }) && wf_meta(m@),
                Err(e) => seeds_bytes(seeds.deep_view()).len() > 32 && e
                    == HookError::MalformedInput,
            },
    {
        match seeds_encoded_len(&seeds) {
            Some(_) => Ok(ExtraAccountMeta::ProgramDerived { seeds, is_signer, is_writable }),
            None => Err(HookError::MalformedInput),
        }
    }

    /// A descriptor for an address derived under the namespace of the program
    /// at `program_index` of the account list.  Fails when the recipe does
    /// not fit its payload slot.
    pub fn new_external_pda_with_seeds(
        program_index: u8,
        seeds: Vec<Seed>,
        is_signer: bool,
        is_writable: bool,
    ) -> (r: Result<ExtraAccountMeta, HookError>)
        ensures
            match r {
                Ok(m) => m@ == (MetaV::ExternalDerived {
                    program_index,
                    seeds: seeds.deep_view(),
                    is_signer,
                    is_writable,
                }) && wf_meta(m@),
                Err(e) => seeds_bytes(seeds.deep_view()).len() > 31 && e
                    == HookError::MalformedInput,
            },
    {
        match seeds_encoded_len(&seeds) {
            Some(n) => {
                if n > 31 {
                    return Err(HookError::MalformedInput);
                }
                Ok(ExtraAccountMeta::ExternalDerived { program_index, seeds, is_signer, is_writable })
            },
            None => Err(HookError::MalformedInput),
        }
    }
}

/// Parses a packed seed recipe from a payload.
#[verifier::loop_isolation(false)]
pub fn parse_seeds(config: &[u8]) -> (r: Result<Vec<Seed>, HookError>)
    ensures
        match r {
            Ok(v) => seeds_decode(config@) == Some(v.deep_view()),
            Err(e) => seeds_decode(config@) is None && e == HookError::MalformedInput,
        },
{
    let mut acc: Vec<Seed> = Vec::new();
    let mut i: usize = 0;
    proof {
        assert(config@.skip(0) =~= config@);
        match seeds_decode(config@) {
            Some(tail) => {
                assert(acc.deep_view() + tail =~= tail);
            },
            None => {},
        }
    }
    while i < config.len()
        invariant
            i <= config@.len(),
            match seeds_decode(config@.skip(i as int)) {
                Some(tail) => seeds_decode(config@) == Some(acc.deep_view() + tail),
                None => seeds_decode(config@) is None,
            },
        decreases config@.len() - i,
    {
        let ghost b = config@.skip(i as int);
        proof {
            assert(b[0] == config@[i as int]);
        }
        let tag = config[i];
        if tag == 0 {
            proof {
                assert(seeds_decode(b) == Some(Seq::<SeedV>::empty()));
                assert(acc.deep_view() + Seq::<SeedV>::empty() =~= acc.deep_view());
            }
            return Ok(acc);
        } else if tag == 1 {
            if config.len() - i < 2 {
                proof {
                    assert(b.len() < 2);
                }
                return Err(HookError::MalformedInput);
            }
            proof {
                assert(b[1] == config@[i + 1]);
            }
            let n = config[i + 1] as usize;
            if config.len() - i - 2 < n {
                proof {
                    assert(b.len() < 2 + n);
                }
                return Err(HookError::MalformedInput);
            }
            let bytes = vstd::slice::slice_to_vec(
                vstd::slice::slice_subrange(config, i + 2, i + 2 + n),
            );
            proof {
                assert(bytes@ =~= b.subrange(2, 2 + n as int));
                assert(b.skip(2 + n as int) =~= config@.skip(i + 2 + n));
            }
            let ghost pre = acc.deep_view();
            let ghost sv = SeedV::Literal { bytes: bytes@ };
            acc.push(Seed::Literal { bytes });
            proof {
                assert(acc.deep_view() =~= pre + seq![sv]);
                match seeds_decode(config@.skip(i + 2 + n)) {
                    Some(tail2) => {
                        assert(seeds_decode(b) == Some(seq![sv] + tail2));
                        assert(pre + (seq![sv] + tail2) =~= (pre + seq![sv]) + tail2);
                    },
                    None => {
                        assert(seeds_decode(b) is None);
                    },
                }
            }
            i = i + 2 + n;
        } else if tag == 3 {
            if config.len() - i < 2 {
                proof {
                    assert(b.len() < 2);
                }
                return Err(HookError::MalformedInput);
            }
            proof {
                assert(b[1] == config@[i + 1]);
                assert(b.skip(2) =~= config@.skip(i + 2));
            }
            let ghost pre = acc.deep_view();
            let ghost sv = SeedV::AccountKey { index: config[i + 1] };
            acc.push(Seed::AccountKey { index: config[i + 1] });
            proof {
                assert(acc.deep_view() =~= pre + seq![sv]);
                match seeds_decode(config@.skip(i + 2)) {
                    Some(tail2) => {
                        assert(seeds_decode(b) == Some(seq![sv] + tail2));
                        assert(pre + (seq![sv] + tail2) =~= (pre + seq![sv]) + tail2);
                    },
                    None => {
                        assert(seeds_decode(b) is None);
                    },
                }
            }
            i = i + 2;
        } else {
            proof {
                assert(seeds_decode(b) is None);
            }
            return Err(HookError::MalformedInput);
        }
    }
    proof {
        assert(config@.skip(i as int).len() == 0);
        assert(seeds_decode(config@.skip(i as int)) == Some(Seq::<SeedV>::empty()));
        assert(acc.deep_view() + Seq::<SeedV>::empty() =~= acc.deep_view());
    }
    Ok(acc)
}

/// Parses one 35-byte descriptor record.
pub fn parse_meta(b: &[u8]) -> (r: Result<ExtraAccountMeta, HookError>)
    requires
        b@.len() == 35,
    ensures
        match r {
            Ok(m) => meta_decode(b@) == Some(m@),
            Err(e) => meta_decode(b@) is None && e == HookError::MalformedInput,
        },
{
    let tag = b[0];
    let is_signer = b[33] != 0;
    let is_writable = b[34] != 0;
    if tag == 0 {
        let address = Address::from_bytes(
            vstd::slice::slice_to_vec(vstd::slice::slice_subrange(b, 1, 33)),
        );
        proof {
            assert(address@ =~= b@.subrange(1, 33));
        }
        Ok(ExtraAccountMeta::Fixed { address, is_signer, is_writable })
    } else if tag == 1 {
        match parse_seeds(vstd::slice::slice_subrange(b, 1, 33)) {
            Ok(seeds) => Ok(ExtraAccountMeta::ProgramDerived { seeds, is_signer, is_writable }),
            Err(e) => Err(e),
        }
    } else if tag == 2 {
        let program_index = b[1];
        match parse_seeds(vstd::slice::slice_subrange(b, 2, 33)) {
            Ok(seeds) => Ok(
                ExtraAccountMeta::ExternalDerived { program_index, seeds, is_signer, is_writable },
            ),
            Err(e) => Err(e),
        }
    } else {
        Err(HookError::MalformedInput)
    }
}

/// Reads a four-byte little-endian value.
pub fn read_u32_le(data: &[u8], off: usize) -> (r: u32)
    requires
        off + 4 <= data@.len(),
    ensures
        r == u32_from_le(data@.subrange(off as int, off as int + 4)),
{
    let b0 = data[off] as u32;
    let b1 = data[off + 1] as u32;
    let b2 = data[off + 2] as u32;
    let b3 = data[off + 3] as u32;
    b0 + b1 * 256 + b2 * 65536 + b3 * 16777216
}

/// Decodes an encoded descriptor list.  Fails with a malformed-input error
/// on any buffer that is not exactly the encoding of some list.
#[verifier::loop_isolation(false)]
pub fn decode(data: &[u8]) -> (r: Result<Vec<ExtraAccountMeta>, HookError>)
    ensures
        match r {
            Ok(v) => decode_spec(data@) == Some(v.deep_view()),
            Err(e) => decode_spec(data@) is None && e == HookError::MalformedInput,
        },
{
    if data.len() < 16 {
        return Err(HookError::MalformedInput);
    }
    let digest = sha256("spl-transfer-hook-interface:execute".as_bytes());
    proof {
        assert(digest@.subrange(0, 8) =~= list_disc());
        assert(data@.subrange(0, 8) =~= data@.take(8));
    }
    if !bytes_eq(
        vstd::slice::slice_subrange(data, 0, 8),
        vstd::slice::slice_subrange(digest.as_slice(), 0, 8),
    ) {
        return Err(HookError::MalformedInput);
    }
    let length = read_u32_le(data, 8);
    let count = read_u32_le(data, 12);
    if (length as u64) != 4 + 35 * (count as u64) {
        return Err(HookError::MalformedInput);
    }
    if (data.len() as u64) != 16 + 35 * (count as u64) {
        return Err(HookError::MalformedInput);
    }
    let c: usize = count as usize;
    let mut acc: Vec<ExtraAccountMeta> = Vec::new();
    let mut i: usize = 0;
    proof {
        assert(data@.len() == 16 + 35 * c);
    }
    while i < c
        invariant
            i <= c,
            acc.deep_view().len() == i as int,
            forall|j: int|
                0 <= j < i ==> meta_decode(
                    data@.subrange(16 + 35 * j, 16 + 35 * (j + 1)),
                ) == Some(#[trigger] acc.deep_view()[j]),
        decreases c - i,
    {
        match parse_meta(vstd::slice::slice_subrange(data, 16 + 35 * i, 16 + 35 * i + 35)) {
            Ok(m) => {
                let ghost pre = acc.deep_view();
                let ghost mv = m@;
                acc.push(m);
                proof {
                    assert(acc.deep_view() =~= pre + seq![mv]);
                }
            },
            Err(_) => {
                proof {
                    assert(meta_decode(
                        data@.subrange(16 + 35 * i, 16 + 35 * (i as int + 1)),
                    ) is None);
                    assert(decode_spec(data@) is None);
                }
                return Err(HookError::MalformedInput);
            },
        }
        i += 1;
    }
    proof {
        let dec = decode_spec(data@);
        assert(u32_from_le(data@.subrange(12, 16)) == count as int);
        assert forall|j: int| 0 <= j < count implies #[trigger] meta_decode(
            data@.subrange(header_len() + meta_len() * j, header_len() + meta_len() * (j + 1)),
        ) is Some by {
            assert(meta_decode(data@.subrange(16 + 35 * j, 16 + 35 * (j + 1))) == Some(
                acc.deep_view()[j],
            ));
        }
        assert(dec is Some);
        assert(dec->Some_0 =~= acc.deep_view());
    }
    Ok(acc)
}

} // verus!

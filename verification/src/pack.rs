//! Cooked asset packs (SGPK): framing, the asset index, lookup, and the
//! integrity checks made before a pack is used.
//!
//! An SGPK v1 file is the magic `SGPK`, a little-endian `u32` header length,
//! a JSON header listing `(id, offset, size)` per asset, and the payload the
//! offsets point into. Reading the JSON header into `PackAssetMeta` values is
//! left to the caller; everything around it is here.

use vstd::prelude::*;

use crate::text::{chars_eq_str, chars_of, decimal, push_char, push_decimal, push_str, string_from, string_of};

verus! {

// ---------------------------------------------------------------------------
// Manifest
// ---------------------------------------------------------------------------

/// One pack listed in the manifest.
#[derive(Debug)]
pub struct PackRecord {
    pub id: String,
    pub url: String,
    pub hash: String,
    pub size: u64,
}

/// The pack manifest.
#[derive(Debug)]
pub struct Manifest {
    pub packs: Vec<PackRecord>,
}

/// One asset entry of a pack header.
#[derive(Debug)]
pub struct PackAssetMeta {
    pub id: String,
    pub offset: u64,
    pub size: u64,
}

/// Index of the first record with id `id` at or after `i`.
pub open spec fn find_record_from(packs: Seq<PackRecord>, id: Seq<char>, i: int) -> Option<int>
    decreases packs.len() - i,
{
    if i < 0 || i >= packs.len() {
        None
    } else if packs[i].id@ == id {
        Some(i)
    } else {
        find_record_from(packs, id, i + 1)
    }
}

/// The first record of the manifest for pack `pack_id`.
pub fn find_pack_record<'a>(manifest: &'a Manifest, pack_id: &str) -> (r: Result<
    &'a PackRecord,
    String,
>)
    ensures
        match find_record_from(manifest.packs@, pack_id@, 0) {
            Some(k) => r matches Ok(rec) && rec == &manifest.packs@[k],
            None => r matches Err(e) && e@ == "manifest missing pack "@ + pack_id@,
        },
{
    let n = manifest.packs.len();
    let mut i: usize = 0;
    let key = chars_of(pack_id);
    while i < n
        invariant
            n == manifest.packs@.len(),
            key@ == pack_id@,
            i <= n,
            find_record_from(manifest.packs@, pack_id@, 0) == find_record_from(
                manifest.packs@,
                pack_id@,
                i as int,
            ),
        decreases n - i,
    {
        let rid = chars_of(manifest.packs[i].id.as_str());
        if crate::text::chars_eq(&rid, &key) {
            return Ok(&manifest.packs[i]);
        }
        i = i + 1;
    }
    let mut e = string_from("manifest missing pack ");
    push_str(&mut e, pack_id);
    Err(e)
}

// ---------------------------------------------------------------------------
// Hex text
// ---------------------------------------------------------------------------

/// Lower-case hex digit for `v < 16`.
pub open spec fn hex_lower(v: u8) -> char {
    if v < 10 {
        ((48 + v) as u8) as char
    } else {
        ((87 + v) as u8) as char
    }
}

/// Two lower-case hex digits per byte.
pub open spec fn hex_string(bs: Seq<u8>) -> Seq<char>
    decreases bs.len(),
{
    if bs.len() == 0 {
        seq![]
    } else {
        hex_string(bs.drop_last()) + seq![hex_lower(bs.last() / 16), hex_lower(bs.last() % 16)]
    }
}

fn hex_digit_lower(v: u8) -> (c: char)
    requires
        v < 16,
    ensures
        c == hex_lower(v),
{
    if v < 10 {
        (48 + v) as char
    } else {
        (87 + v) as char
    }
}

// ---------------------------------------------------------------------------
// SHA-256
// ---------------------------------------------------------------------------

/// The SHA-256 digest of `data`.
pub uninterp spec fn sha256(data: Seq<u8>) -> Seq<u8>;

/// `sha2::Sha256::digest` (the `Digest` trait): the 32-byte SHA-256 digest
/// of `data`. Stated: the result is the named digest of the input, and it
/// is 32 bytes long (the output size `U32` of `Sha256` in the sha2 source).
#[verifier::external_body]
fn sha256_digest(data: &[u8]) -> (d: Vec<u8>)
    ensures
        d@ == sha256(data@),
        d@.len() == 32,
{
    <sha2::Sha256 as sha2::Digest>::digest(data).to_vec()
}

/// Two lower-case hex digits per byte of `bytes`.
pub fn hex_lower_string(bytes: &[u8]) -> (s: String)
    ensures
        s@ == hex_string(bytes@),
        s@.len() == 2 * bytes@.len(),
{
    let mut s = String::new();
    let n = bytes.len();
    let mut i: usize = 0;
    while i < n
        invariant
            n == bytes@.len(),
            i <= n,
            s@ == hex_string(bytes@.take(i as int)),
            s@.len() == 2 * i,
        decreases n - i,
    {
        let b = bytes[i];
        push_char(&mut s, hex_digit_lower(b / 16));
        push_char(&mut s, hex_digit_lower(b % 16));
        assert(bytes@.take(i + 1).drop_last() =~= bytes@.take(i as int));
        i = i + 1;
    }
    assert(bytes@.take(n as int) =~= bytes@);
    s
}

/// Lower-case hex of the SHA-256 digest of `data`.
pub fn sha256_hex(data: &[u8]) -> (s: String)
    ensures
        s@ == hex_string(sha256(data@)),
        s@.len() == 64,
{
    let digest = sha256_digest(data);
    hex_lower_string(digest.as_slice())
}

// ---------------------------------------------------------------------------
// Checking fetched pack bytes against the manifest
// ---------------------------------------------------------------------------

/// What the integrity check says of `len` fetched bytes whose SHA-256 is
/// `digest`: `None` when they match the record's size and hash, else the
/// error.
pub open spec fn pack_check_digest(
    pack_id: Seq<char>,
    size: u64,
    hash: Seq<char>,
    len: nat,
    digest: Seq<u8>,
) -> Option<Seq<char>> {
    if len != size {
        Some(
            "pack "@ + pack_id + " size mismatch: got "@ + decimal(len) + " expected "@ + decimal(
                size as nat,
            ),
        )
    } else if hex_string(digest) != hash {
        Some("pack "@ + pack_id + " hash mismatch"@)
    } else {
        None
    }
}

/// What the integrity check says of pack bytes.
pub open spec fn pack_check(pack_id: Seq<char>, size: u64, hash: Seq<char>, bytes: Seq<u8>) -> Option<
    Seq<char>,
> {
    pack_check_digest(pack_id, size, hash, bytes.len(), sha256(bytes))
}

fn size_mismatch(pack_id: &str, len: usize, size: u64) -> (e: String)
    ensures
        e@ == "pack "@ + pack_id@ + " size mismatch: got "@ + decimal(len as nat) + " expected "@
            + decimal(size as nat),
{
    let mut e = string_from("pack ");
    push_str(&mut e, pack_id);
    push_str(&mut e, " size mismatch: got ");
    push_decimal(&mut e, len as u64);
    push_str(&mut e, " expected ");
    push_decimal(&mut e, size);
    e
}

/// Checks `len` fetched bytes with SHA-256 `digest` against their manifest
/// record: the size, then the digest (lower-case hex) against the hash.
pub fn check_pack_digest(pack_id: &str, record: &PackRecord, len: usize, digest: &[u8]) -> (r: Result<
    (),
    String,
>)
    ensures
        match pack_check_digest(pack_id@, record.size, record.hash@, len as nat, digest@) {
            None => r is Ok,
            Some(e) => r matches Err(m) && m@ == e,
        },
{
    if len as u64 != record.size {
        return Err(size_mismatch(pack_id, len, record.size));
    }
    let hash = hex_lower_string(digest);
    let hc = chars_of(hash.as_str());
    if !chars_eq_str(&hc, record.hash.as_str()) {
        let mut e = string_from("pack ");
        push_str(&mut e, pack_id);
        push_str(&mut e, " hash mismatch");
        return Err(e);
    }
    Ok(())
}

/// Checks fetched pack bytes against their manifest record: the size, then
/// the SHA-256 (lower-case hex) against the record's hash. The digest is
/// computed only when the size matches.
pub fn check_pack_bytes(pack_id: &str, record: &PackRecord, bytes: &[u8]) -> (r: Result<(), String>)
    ensures
        match pack_check(pack_id@, record.size, record.hash@, bytes@) {
            None => r is Ok,
            Some(e) => r matches Err(m) && m@ == e,
        },
{
    if bytes.len() as u64 != record.size {
        return Err(size_mismatch(pack_id, bytes.len(), record.size));
    }
    let digest = sha256_digest(bytes);
    check_pack_digest(pack_id, record, bytes.len(), digest.as_slice())
}

// ---------------------------------------------------------------------------
// Framing
// ---------------------------------------------------------------------------

/// The little-endian `u32` in bytes 4..8.
pub open spec fn header_len_field(bytes: Seq<u8>) -> nat {
    (bytes[4] as nat) + (bytes[5] as nat) * 256 + (bytes[6] as nat) * 65536 + (bytes[7] as nat)
        * 16777216
}

/// Where the JSON header ends, or why the bytes are not a pack.
pub open spec fn header_span_spec(bytes: Seq<u8>) -> Result<int, Seq<char>> {
    if bytes.len() < 8 {
        Err("pack too short"@)
    } else if !(bytes[0] == 83 && bytes[1] == 71 && bytes[2] == 80 && bytes[3] == 75) {
        Err("bad pack magic (expected SGPK)"@)
    } else if 8 + header_len_field(bytes) > usize::MAX {
        Err("pack header length overflow"@)
    } else if 8 + header_len_field(bytes) > bytes.len() {
        Err("pack header truncated"@)
    } else {
        Ok((8 + header_len_field(bytes)) as int)
    }
}

// ---------------------------------------------------------------------------
// The asset index
// ---------------------------------------------------------------------------

/// An index entry: asset id and its payload range.
struct IndexEntry {
    id: String,
    start: usize,
    end: usize,
}

/// Parsed SGPK v1: named assets (glb/png bytes as-is) in one payload.
pub struct Pack {
    payload: Vec<u8>,
    index: Vec<IndexEntry>,
}

/// The abstract index: `(id, start, end)` per asset, in header order.
spec fn index_model(ix: Seq<IndexEntry>) -> Seq<(Seq<char>, int, int)> {
    ix.map_values(|e: IndexEntry| (e.id@, e.start as int, e.end as int))
}

/// The abstract asset list of a header.
pub open spec fn assets_model(a: Seq<PackAssetMeta>) -> Seq<(Seq<char>, u64, u64)> {
    a.map_values(|m: PackAssetMeta| (m.id@, m.offset, m.size))
}

/// Whether some entry of the index has id `id`.
pub open spec fn index_has(ix: Seq<(Seq<char>, int, int)>, id: Seq<char>) -> bool {
    exists|k: int| 0 <= k < ix.len() && ix[k].0 == id
}

/// The index built from the header's assets (in order) over a payload of
/// `payload_len` bytes, or the first error met.
pub open spec fn build_index(payload_len: int, assets: Seq<(Seq<char>, u64, u64)>) -> Result<
    Seq<(Seq<char>, int, int)>,
    Seq<char>,
>
    decreases assets.len(),
{
    if assets.len() == 0 {
        Ok(seq![])
    } else {
        match build_index(payload_len, assets.drop_last()) {
            Err(e) => Err(e),
            Ok(ix) => {
                let (id, offset, size) = assets.last();
                let start = offset as usize;
                let len = size as usize;
                if start + len > usize::MAX {
                    Err("asset "@ + id + " size overflow"@)
                } else if start + len > payload_len {
                    Err("asset "@ + id + " out of range"@)
                } else if index_has(ix, id) {
                    Err("duplicate asset id "@ + id)
                } else {
                    Ok(ix.push((id, start as int, start + len)))
                }
            },
        }
    }
}

/// A well-formed index: ranges inside the payload, ids distinct.
pub open spec fn index_wf(payload_len: int, ix: Seq<(Seq<char>, int, int)>) -> bool {
    &&& forall|k: int| 0 <= k < ix.len() ==> 0 <= #[trigger] ix[k].1 <= ix[k].2 <= payload_len
    &&& forall|i: int, j: int| 0 <= i < j < ix.len() ==> ix[i].0 != ix[j].0
}

proof fn lemma_build_index_wf(payload_len: int, assets: Seq<(Seq<char>, u64, u64)>)
    ensures
        build_index(payload_len, assets) matches Ok(ix) ==> index_wf(payload_len, ix) && ix.len()
            == assets.len(),
    decreases assets.len(),
{
    if assets.len() > 0 {
        lemma_build_index_wf(payload_len, assets.drop_last());
    }
}

impl View for Pack {
    type V = (Seq<u8>, Seq<(Seq<char>, int, int)>);

    closed spec fn view(&self) -> (Seq<u8>, Seq<(Seq<char>, int, int)>) {
        (self.payload@, index_model(self.index@))
    }
}

impl Pack {
    #[verifier::type_invariant]
    spec fn inv(self) -> bool {
        index_wf(self.payload@.len() as int, index_model(self.index@))
    }

    /// Checks the framing and returns where the JSON header ends (it starts
    /// at byte 8).
    pub fn header_span(bytes: &[u8]) -> (r: Result<usize, String>)
        ensures
            match header_span_spec(bytes@) {
                Ok(end) => r matches Ok(e) && e == end,
                Err(m) => r matches Err(e) && e@ == m,
            },
    {
        if bytes.len() < 8 {
            return Err(string_from("pack too short"));
        }
        if !(bytes[0] == 83 && bytes[1] == 71 && bytes[2] == 80 && bytes[3] == 75) {
            return Err(string_from("bad pack magic (expected SGPK)"));
        }
        let header_len: u32 = bytes[4] as u32 + bytes[5] as u32 * 256 + bytes[6] as u32 * 65536
            + bytes[7] as u32 * 16777216;
        let header_start: usize = 8;
        let header_end = match header_start.checked_add(header_len as usize) {
            Some(e) => e,
            None => return Err(string_from("pack header length overflow")),
        };
        if header_end > bytes.len() {
            return Err(string_from("pack header truncated"));
        }
        Ok(header_end)
    }

    /// Builds the pack from its bytes, the end of the header, and the
    /// header's asset list: the payload is everything after the header, and
    /// each asset's range must fit in it, with no id listed twice.
    #[verifier::loop_isolation(false)]
    pub fn from_parts(bytes: &[u8], header_end: usize, assets: Vec<PackAssetMeta>) -> (r: Result<
        Pack,
        String,
    >)
        requires
            header_end <= bytes@.len(),
        ensures
            match build_index(bytes@.len() - header_end, assets_model(assets@)) {
                Ok(ix) => r matches Ok(p) && p@ == (bytes@.skip(header_end as int), ix),
                Err(m) => r matches Err(e) && e@ == m,
            },
    {
        let payload = vstd::slice::slice_to_vec(&bytes[header_end..bytes.len()]);
        let plen = payload.len();
        let mut index: Vec<IndexEntry> = Vec::new();
        let n = assets.len();
        let mut i: usize = 0;
        let ghost am = assets_model(assets@);
        assert(am.take(0) =~= Seq::<(Seq<char>, u64, u64)>::empty());
        assert(index_model(index@) =~= Seq::<(Seq<char>, int, int)>::empty());
        while i < n
            invariant
                n == assets@.len(),
                am == assets_model(assets@),
                plen == payload@.len(),
                payload@ == bytes@.skip(header_end as int),
                plen == bytes@.len() - header_end,
                i <= n,
                build_index(plen as int, am.take(i as int)) == Ok::<
                    Seq<(Seq<char>, int, int)>,
                    Seq<char>,
                >(index_model(index@)),
            decreases n - i,
        {
            let a = &assets[i];
            assert(am.take(i + 1).drop_last() =~= am.take(i as int));
            assert(am.take(i + 1).last() == (a.id@, a.offset, a.size));
            let start = a.offset as usize;
            let end = match start.checked_add(a.size as usize) {
                Some(e) => e,
                None => {
                    let mut e = string_from("asset ");
                    push_str(&mut e, a.id.as_str());
                    push_str(&mut e, " size overflow");
                    proof {
                        lemma_build_index_prefix_err(plen as int, am, i as int);
                    }
                    return Err(e);
                },
            };
            if end > plen {
                let mut e = string_from("asset ");
                push_str(&mut e, a.id.as_str());
                push_str(&mut e, " out of range");
                proof {
                    lemma_build_index_prefix_err(plen as int, am, i as int);
                }
                return Err(e);
            }
            let aid = chars_of(a.id.as_str());
            let mut k: usize = 0;
            let m = index.len();
            while k < m
                invariant
                    m == index@.len(),
                    k <= m,
                    aid@ == a.id@,
                    forall|j: int| 0 <= j < k ==> index_model(index@)[j].0 != a.id@,
                decreases m - k,
            {
                let kid = chars_of(index[k].id.as_str());
                if crate::text::chars_eq(&kid, &aid) {
                    let mut e = string_from("duplicate asset id ");
                    push_str(&mut e, a.id.as_str());
                    proof {
                        assert(index_model(index@)[k as int].0 == a.id@);
                        lemma_build_index_prefix_err(plen as int, am, i as int);
                    }
                    return Err(e);
                }
                k = k + 1;
            }
            let entry = IndexEntry { id: string_of(&aid), start, end };
            proof {
                assert(index_model(index@.push(entry)) =~= index_model(index@).push(
                    (a.id@, start as int, end as int),
                ));
            }
            index.push(entry);
            i = i + 1;
        }
        assert(am.take(n as int) =~= am);
        proof {
            lemma_build_index_wf(plen as int, am);
        }
        Ok(Pack { payload, index })
    }

    /// The bytes of asset `id`.
    #[verifier::loop_isolation(false)]
    pub fn get(&self, id: &str) -> (r: Result<&[u8], String>)
        ensures
            match index_find(self@.1, id@) {
                Some(k) => r matches Ok(b) && b@ == self@.0.subrange(self@.1[k].1, self@.1[k].2),
                None => r matches Err(e) && e@ == "pack missing asset "@ + id@,
            },
    {
        proof {
            use_type_invariant(self);
        }
        let key = chars_of(id);
        let n = self.index.len();
        let mut i: usize = 0;
        while i < n
            invariant
                n == self.index@.len(),
                key@ == id@,
                i <= n,
                index_find(self@.1, id@) == index_find_from(self@.1, id@, i as int),
            decreases n - i,
        {
            let kid = chars_of(self.index[i].id.as_str());
            if crate::text::chars_eq(&kid, &key) {
                let e = &self.index[i];
                assert(self@.1[i as int] == (e.id@, e.start as int, e.end as int));
                assert(0 <= self@.1[i as int].1 <= self@.1[i as int].2 <= self@.0.len());
                let p = self.payload.as_slice();
                assert(p@ == self@.0);
                return Ok(&p[e.start..e.end]);
            }
            i = i + 1;
        }
        let mut e = string_from("pack missing asset ");
        push_str(&mut e, id);
        Err(e)
    }
}

/// Index of the first entry for `id` at or after `i`.
pub open spec fn index_find_from(ix: Seq<(Seq<char>, int, int)>, id: Seq<char>, i: int) -> Option<int>
    decreases ix.len() - i,
{
    if i < 0 || i >= ix.len() {
        None
    } else if ix[i].0 == id {
        Some(i)
    } else {
        index_find_from(ix, id, i + 1)
    }
}

/// The entry for `id`, if any.
pub open spec fn index_find(ix: Seq<(Seq<char>, int, int)>, id: Seq<char>) -> Option<int> {
    index_find_from(ix, id, 0)
}

/// When the first `i` assets built fine and asset `i` fails, the whole
/// build fails with asset `i`'s error.
proof fn lemma_build_index_prefix_err(payload_len: int, am: Seq<(Seq<char>, u64, u64)>, i: int)
    requires
        0 <= i < am.len(),
        build_index(payload_len, am.take(i + 1)) is Err,
    ensures
        build_index(payload_len, am) == build_index(payload_len, am.take(i + 1)),
    decreases am.len(),
{
    if am.len() > i + 1 {
        assert(am.drop_last().take(i + 1) =~= am.take(i + 1));
        lemma_build_index_prefix_err(payload_len, am.drop_last(), i);
    } else {
        assert(am.take(i + 1) =~= am);
    }
}

/// In an index with distinct ids, the lookup of an id finds the one entry
/// that has it.
proof fn lemma_index_find_unique(ix: Seq<(Seq<char>, int, int)>, k: int, i: int)
    requires
        forall|a: int, b: int| 0 <= a < b < ix.len() ==> ix[a].0 != ix[b].0,
        0 <= i <= k < ix.len(),
    ensures
        index_find_from(ix, ix[k].0, i) == Some(k),
    decreases k - i,
{
    if i < k {
        assert(ix[i].0 != ix[k].0);
        lemma_index_find_unique(ix, k, i + 1);
    }
}

/// The build keeps each asset at its header position, as the range
/// `[offset, offset + size)` of the payload.
proof fn lemma_build_index_entries(payload_len: int, assets: Seq<(Seq<char>, u64, u64)>, k: int)
    requires
        build_index(payload_len, assets) is Ok,
        0 <= k < assets.len(),
    ensures
        ({
            let ix = build_index(payload_len, assets)->Ok_0;
            ix[k] == (assets[k].0, (assets[k].1 as usize) as int, (assets[k].1 as usize) + (
            assets[k].2 as usize))
        }),
    decreases assets.len(),
{
    lemma_build_index_wf(payload_len, assets.drop_last());
    if k < assets.len() - 1 {
        lemma_build_index_entries(payload_len, assets.drop_last(), k);
    }
}

/// What a pack gives back for an asset of its header: when the header's
/// assets build an index, looking up the id of asset `k` finds exactly its
/// range `[offset, offset + size)` of the payload.
pub proof fn law_lookup_finds_listed_asset(
    payload_len: int,
    assets: Seq<(Seq<char>, u64, u64)>,
    k: int,
)
    requires
        build_index(payload_len, assets) is Ok,
        0 <= k < assets.len(),
    ensures
        ({
            let ix = build_index(payload_len, assets)->Ok_0;
            &&& index_find(ix, assets[k].0) == Some(k)
            &&& ix[k].1 == (assets[k].1 as usize) as int
            &&& ix[k].2 == (assets[k].1 as usize) + (assets[k].2 as usize)
            &&& 0 <= ix[k].1 <= ix[k].2 <= payload_len
        }),
{
    lemma_build_index_wf(payload_len, assets);
    lemma_build_index_entries(payload_len, assets, k);
    let ix = build_index(payload_len, assets)->Ok_0;
    lemma_index_find_unique(ix, k, 0);
}

/// What a pack reads back for a listed asset: for pack bytes whose header
/// ends at `header_end` and whose assets build an index, the lookup of
/// asset `k`'s id yields the bytes at `[header_end + offset, header_end +
/// offset + size)` of the file.
pub proof fn law_read_gives_listed_bytes(
    bytes: Seq<u8>,
    header_end: int,
    assets: Seq<(Seq<char>, u64, u64)>,
    k: int,
)
    requires
        0 <= header_end <= bytes.len(),
        build_index(bytes.len() - header_end, assets) is Ok,
        0 <= k < assets.len(),
    ensures
        ({
            let ix = build_index(bytes.len() - header_end, assets)->Ok_0;
            let start = header_end + (assets[k].1 as usize);
            let end = start + (assets[k].2 as usize);
            &&& index_find(ix, assets[k].0) == Some(k)
            &&& end <= bytes.len()
            &&& bytes.skip(header_end).subrange(ix[k].1, ix[k].2) == bytes.subrange(start, end)
        }),
{
    law_lookup_finds_listed_asset(bytes.len() - header_end, assets, k);
    let ix = build_index(bytes.len() - header_end, assets)->Ok_0;
    let start = header_end + (assets[k].1 as usize);
    let end = start + (assets[k].2 as usize);
    assert(bytes.skip(header_end).subrange(ix[k].1, ix[k].2) =~= bytes.subrange(start, end));
}

} // verus!

//! H.264 byte streams: start codes, NAL unit types, and the conversion of
//! length-prefixed (AVCC) units to Annex B.
use vstd::prelude::*;

verus! {

/// The four-byte Annex B start code.
pub open spec fn start_code() -> Seq<u8> {
    seq![0u8, 0u8, 0u8, 1u8]
}

/// The three-byte Annex B start code.
pub open spec fn short_start_code() -> Seq<u8> {
    seq![0u8, 0u8, 1u8]
}

/// Whether `b` holds `pattern` at `i`.
pub open spec fn holds_at(b: Seq<u8>, i: int, pattern: Seq<u8>) -> bool {
    0 <= i && i + pattern.len() <= b.len() && b.subrange(i, i + pattern.len() as int) == pattern
}

/// Whether `b` contains a three- or four-byte start code.
pub open spec fn has_start_code_spec(b: Seq<u8>) -> bool {
    (exists|i: int| #[trigger] holds_at(b, i, short_start_code())) || (exists|i: int|
        #[trigger] holds_at(b, i, start_code()))
}

/// The types of the NAL units announced by start codes in `b` from `i` on:
/// the low five bits of the byte after each start code, where there is one.
pub open spec fn nal_types_from(b: Seq<u8>, i: int) -> Seq<u8>
    decreases b.len() - i,
{
    if i < 0 || i + 3 > b.len() {
        Seq::empty()
    } else if holds_at(b, i, start_code()) {
        (if i + 4 < b.len() {
            seq![b[i + 4] & 0x1fu8]
        } else {
            Seq::empty()
        }) + nal_types_from(b, i + 4)
    } else if holds_at(b, i, short_start_code()) {
        (if i + 3 < b.len() {
            seq![b[i + 3] & 0x1fu8]
        } else {
            Seq::empty()
        }) + nal_types_from(b, i + 3)
    } else {
        nal_types_from(b, i + 1)
    }
}

/// The big-endian value of `s`.
pub open spec fn be_value(s: Seq<u8>) -> nat
    decreases s.len(),
{
    if s.len() == 0 {
        0
    } else {
        be_value(s.drop_last()) * 256 + (s.last() as nat)
    }
}

/// `256` to the power `k`.
pub open spec fn pow256(k: nat) -> nat
    decreases k,
{
    if k == 0 {
        1
    } else {
        256 * pow256((k - 1) as nat)
    }
}

/// The Annex B form of `b` read as units each prefixed by its length in
/// `size` big-endian bytes; `None` where a length is zero, runs past the end,
/// or a partial prefix is left over.
pub open spec fn length_prefixed_units(b: Seq<u8>, size: nat) -> Option<Seq<u8>>
    decreases b.len(),
{
    if b.len() == 0 {
        Some(Seq::empty())
    } else if size == 0 || b.len() < size {
        None
    } else {
        let length = be_value(b.take(size as int));
        let rest = b.skip(size as int);
        if length == 0 || rest.len() < length {
            None
        } else {
            match length_prefixed_units(rest.skip(length as int), size) {
                Some(tail) => Some(start_code() + rest.take(length as int) + tail),
                None => None,
            }
        }
    }
}

/// Whether `b` converts as non-empty units with `size`-byte length prefixes.
pub open spec fn converts_with(b: Seq<u8>, size: nat) -> bool {
    b.len() > 0 && length_prefixed_units(b, size) is Some
}

/// An access unit in Annex B form: unchanged if it already has start codes;
/// else the first of 4-, 2- and 1-byte length prefixes that reads it whole;
/// else unchanged.
pub open spec fn annex_b_of(b: Seq<u8>) -> Seq<u8> {
    if has_start_code_spec(b) {
        b
    } else if converts_with(b, 4) {
        length_prefixed_units(b, 4)->0
    } else if converts_with(b, 2) {
        length_prefixed_units(b, 2)->0
    } else if converts_with(b, 1) {
        length_prefixed_units(b, 1)->0
    } else {
        b
    }
}

/// `count` parameter sets of an AVC configuration record from `offset` on,
/// each with a two-byte big-endian length, in Annex B form, and the offset
/// after them; `None` where one runs past the end.
pub open spec fn avcc_sets(c: Seq<u8>, offset: nat, count: nat) -> Option<(Seq<u8>, nat)>
    decreases count,
{
    if count == 0 {
        Some((Seq::empty(), offset))
    } else if offset + 2 > c.len() {
        None
    } else {
        let length = (c[offset as int] as nat) * 256 + (c[(offset + 1) as int] as nat);
        let start = offset + 2;
        if start + length > c.len() {
            None
        } else {
            match avcc_sets(c, (start + length) as nat, (count - 1) as nat) {
                Some((tail, end)) => Some(
                    (start_code() + c.subrange(start as int, (start + length) as int) + tail, end),
                ),
                None => None,
            }
        }
    }
}

/// The sequence and picture parameter sets of an AVC decoder configuration
/// record in Annex B form; empty for a malformed record.
pub open spec fn avcc_parameter_sets(c: Seq<u8>) -> Seq<u8> {
    if c.len() < 7 || c[0] != 1 {
        Seq::empty()
    } else {
        match avcc_sets(c, 6, (c[5] & 0x1fu8) as nat) {
            None => Seq::empty(),
            Some((sps, end)) => if end >= c.len() {
                sps
            } else {
                match avcc_sets(c, end + 1, c[end as int] as nat) {
                    None => Seq::empty(),
                    Some((pps, _)) => sps + pps,
                }
            },
        }
    }
}

proof fn lemma_holds_at_index(b: Seq<u8>, i: int, pattern: Seq<u8>)
    requires
        0 <= i,
        i + pattern.len() <= b.len(),
    ensures
        holds_at(b, i, pattern) <==> forall|k: int| 0 <= k < pattern.len() ==> b[i + k] == pattern[k],
{
    if forall|k: int| 0 <= k < pattern.len() ==> b[i + k] == pattern[k] {
        assert(b.subrange(i, i + pattern.len() as int) =~= pattern);
    }
    if holds_at(b, i, pattern) {
        assert forall|k: int| 0 <= k < pattern.len() implies b[i + k] == pattern[k] by {
            assert(b.subrange(i, i + pattern.len() as int)[k] == b[i + k]);
        }
    }
}

fn short_code_at(b: &[u8], i: usize) -> (r: bool)
    ensures
        r == holds_at(b@, i as int, short_start_code()),
{
    let n = b.len();
    if i > n || n - i < 3 {
        return false;
    }
    proof {
        lemma_holds_at_index(b@, i as int, short_start_code());
    }
    b[i] == 0 && b[i + 1] == 0 && b[i + 2] == 1
}

fn long_code_at(b: &[u8], i: usize) -> (r: bool)
    ensures
        r == holds_at(b@, i as int, start_code()),
{
    let n = b.len();
    if i > n || n - i < 4 {
        return false;
    }
    proof {
        lemma_holds_at_index(b@, i as int, start_code());
    }
    b[i] == 0 && b[i + 1] == 0 && b[i + 2] == 0 && b[i + 3] == 1
}

/// Whether `bytes` contains a three- or four-byte start code.
pub fn has_start_code(bytes: &[u8]) -> (r: bool)
    ensures
        r == has_start_code_spec(bytes@),
{
    let n = bytes.len();
    let mut i: usize = 0;
    while i < n
        invariant
            n == bytes@.len(),
            i <= n,
            forall|j: int| 0 <= j < i ==> !holds_at(bytes@, j, short_start_code()) && !holds_at(bytes@, j, start_code()),
        decreases n - i,
    {
        if short_code_at(bytes, i) {
            assert(holds_at(bytes@, i as int, short_start_code()));
            return true;
        }
        if long_code_at(bytes, i) {
            assert(holds_at(bytes@, i as int, start_code()));
            return true;
        }
        i = i + 1;
    }
    proof {
        assert forall|j: int| !#[trigger] holds_at(bytes@, j, short_start_code()) by {
            if j >= n as int {
                assert(!holds_at(bytes@, j, short_start_code()));
            }
        }
        assert forall|j: int| !#[trigger] holds_at(bytes@, j, start_code()) by {
            if j >= n as int {
                assert(!holds_at(bytes@, j, start_code()));
            }
        }
    }
    false
}

/// The types of the NAL units in an Annex B stream, in order.
pub fn nal_unit_types(bytes: &[u8]) -> (r: Vec<u8>)
    ensures
        r@ == nal_types_from(bytes@, 0),
{
    let n = bytes.len();
    let mut types: Vec<u8> = Vec::new();
    let mut index: usize = 0;
    while index <= n && 3 <= n - index
        invariant
            n == bytes@.len(),
            index <= n + 1,
            types@ + nal_types_from(bytes@, index as int) == nal_types_from(bytes@, 0),
        decreases n + 1 - index,
    {
        let ghost before = types@;
        if long_code_at(bytes, index) {
            if n - index > 4 {
                types.push(bytes[index + 4] & 0x1f);
            }
            proof {
                assert(types@ + nal_types_from(bytes@, index + 4) =~= before + nal_types_from(
                    bytes@,
                    index as int,
                ));
            }
            index = index + 4;
        } else if short_code_at(bytes, index) {
            if n - index > 3 {
                types.push(bytes[index + 3] & 0x1f);
            }
            proof {
                assert(types@ + nal_types_from(bytes@, index + 3) =~= before + nal_types_from(
                    bytes@,
                    index as int,
                ));
            }
            index = index + 3;
        } else {
            index = index + 1;
        }
    }
    proof {
        assert(types@ =~= types@ + nal_types_from(bytes@, index as int));
    }
    types
}

/// Whether the stream holds an IDR slice (NAL type 5).
pub fn contains_idr(bytes: &[u8]) -> (r: bool)
    ensures
        r == nal_types_from(bytes@, 0).contains(5u8),
{
    let types = nal_unit_types(bytes);
    let mut i: usize = 0;
    while i < types.len()
        invariant
            types@ == nal_types_from(bytes@, 0),
            i <= types@.len(),
            forall|j: int| 0 <= j < i ==> types@[j] != 5u8,
        decreases types@.len() - i,
    {
        if types[i] == 5 {
            assert(types@[i as int] == 5u8);
            return true;
        }
        i = i + 1;
    }
    false
}

/// Whether the stream holds both a sequence (type 7) and a picture (type 8)
/// parameter set.
pub fn contains_parameter_sets(bytes: &[u8]) -> (r: bool)
    ensures
        r == (nal_types_from(bytes@, 0).contains(7u8) && nal_types_from(bytes@, 0).contains(8u8)),
{
    let types = nal_unit_types(bytes);
    let mut sps = false;
    let mut pps = false;
    let mut i: usize = 0;
    while i < types.len()
        invariant
            types@ == nal_types_from(bytes@, 0),
            i <= types@.len(),
            sps == (exists|j: int| 0 <= j < i && types@[j] == 7u8),
            pps == (exists|j: int| 0 <= j < i && types@[j] == 8u8),
        decreases types@.len() - i,
    {
        proof {
            if types@[i as int] == 7u8 {
                assert(exists|j: int| 0 <= j < i + 1 && types@[j] == 7u8);
            }
            if types@[i as int] == 8u8 {
                assert(exists|j: int| 0 <= j < i + 1 && types@[j] == 8u8);
            }
        }
        sps = sps || types[i] == 7;
        pps = pps || types[i] == 8;
        i = i + 1;
    }
    sps && pps
}

proof fn lemma_be_value_bound(s: Seq<u8>)
    ensures
        be_value(s) < pow256(s.len()),
    decreases s.len(),
{
    if s.len() > 0 {
        lemma_be_value_bound(s.drop_last());
    }
}

/// `bytes` read as units with `size`-byte big-endian length prefixes, in
/// Annex B form.
fn length_prefixed_to_annex_b(bytes: &[u8], size: usize) -> (r: Option<Vec<u8>>)
    requires
        1 <= size <= 4,
    ensures
        match r {
            Some(v) => length_prefixed_units(bytes@, size as nat) == Some(v@),
            None => length_prefixed_units(bytes@, size as nat) is None,
        },
{
    let n = bytes.len();
    let mut out: Vec<u8> = Vec::new();
    let mut pos: usize = 0;
    proof {
        assert(bytes@.skip(0) =~= bytes@);
        assert(out@ + Seq::<u8>::empty() =~= out@);
    }
    while pos < n
        invariant
            n == bytes@.len(),
            1 <= size <= 4,
            pos <= bytes@.len(),
            length_prefixed_units(bytes@, size as nat) == match length_prefixed_units(
                bytes@.skip(pos as int),
                size as nat,
            ) {
                Some(t) => Some(out@ + t),
                None => None::<Seq<u8>>,
            },
        decreases bytes@.len() - pos,
    {
        let ghost b = bytes@.skip(pos as int);
        if bytes.len() - pos < size {
            return None;
        }
        let mut length: u64 = 0;
        let mut k: usize = 0;
        while k < size
            invariant
                n == bytes@.len(),
                1 <= size <= 4,
                pos + size <= bytes@.len(),
                b == bytes@.skip(pos as int),
                k <= size,
                length == be_value(b.take(k as int)),
                length < pow256(k as nat),
            decreases size - k,
        {
            proof {
                assert(b.take(k + 1).drop_last() =~= b.take(k as int));
                assert(pow256((k + 1) as nat) == 256 * pow256(k as nat));
                reveal_with_fuel(pow256, 5);
                assert(pow256(k as nat) <= pow256(3)) by {
                    if k == 0 {
                    } else if k == 1 {
                    } else if k == 2 {
                    }
                }
            }
            length = length * 256 + bytes[pos + k] as u64;
            k = k + 1;
        }
        let rest_len: usize = bytes.len() - pos - size;
        let ghost rest = b.skip(size as int);
        if length == 0 || (rest_len as u64) < length {
            proof {
                assert(rest.len() == rest_len);
            }
            return None;
        }
        let start = pos + size;
        let end = start + length as usize;
        let ghost unit = rest.take(length as int);
        proof {
            assert(rest.len() == rest_len);
            assert(rest.skip(length as int) =~= bytes@.skip(end as int));
        }
        out.push(0);
        out.push(0);
        out.push(0);
        out.push(1);
        let mut j: usize = start;
        let ghost prefix = out@;
        while j < end
            invariant
                start <= j <= end <= bytes@.len(),
                out@ == prefix + bytes@.subrange(start as int, j as int),
            decreases end - j,
        {
            out.push(bytes[j]);
            proof {
                assert(bytes@.subrange(start as int, j + 1) =~= bytes@.subrange(start as int, j as int).push(
                    bytes@[j as int],
                ));
            }
            j = j + 1;
        }
        proof {
            assert(bytes@.subrange(start as int, end as int) =~= unit);
        }
        pos = end;
    }
    proof {
        assert(bytes@.skip(pos as int) =~= Seq::<u8>::empty());
        assert(out@ + Seq::<u8>::empty() =~= out@);
    }
    Some(out)
}

fn copy_bytes(bytes: &[u8]) -> (r: Vec<u8>)
    ensures
        r@ == bytes@,
{
    let mut out: Vec<u8> = Vec::new();
    let mut i: usize = 0;
    while i < bytes.len()
        invariant
            i <= bytes@.len(),
            out@ == bytes@.take(i as int),
        decreases bytes@.len() - i,
    {
        out.push(bytes[i]);
        proof {
            assert(bytes@.take(i + 1) =~= bytes@.take(i as int).push(bytes@[i as int]));
        }
        i = i + 1;
    }
    proof {
        assert(bytes@.take(i as int) =~= bytes@);
    }
    out
}

/// An encoded access unit in Annex B form. Units that already carry start
/// codes are kept; length-prefixed units are rewritten with start codes,
/// trying 4-, 2- and 1-byte prefixes; anything else is kept as it is.
pub fn h264_to_annex_b(bytes: &[u8]) -> (r: Vec<u8>)
    ensures
        r@ == annex_b_of(bytes@),
{
    if has_start_code(bytes) {
        return copy_bytes(bytes);
    }
    if bytes.len() > 0 {
        if let Some(v) = length_prefixed_to_annex_b(bytes, 4) {
            return v;
        }
        if let Some(v) = length_prefixed_to_annex_b(bytes, 2) {
            return v;
        }
        if let Some(v) = length_prefixed_to_annex_b(bytes, 1) {
            return v;
        }
    }
    copy_bytes(bytes)
}

/// Appends `count` parameter sets read from `offset` on; `None` where one
/// runs past the end.
fn append_avcc_sets(c: &[u8], offset: usize, count: usize, out: &mut Vec<u8>) -> (r: Option<usize>)
    requires
        offset <= c@.len(),
    ensures
        match avcc_sets(c@, offset as nat, count as nat) {
            Some((sets, end)) => r == Some(end as usize) && final(out)@ == old(out)@ + sets && end
                <= c@.len(),
            None => r is None,
        },
{
    let mut at = offset;
    let mut remaining = count;
    let ghost start_out = old(out)@;
    let ghost total = avcc_sets(c@, at as nat, count as nat);
    proof {
        assert(start_out + Seq::<u8>::empty() =~= start_out);
    }
    while remaining > 0
        invariant
            total == avcc_sets(c@, offset as nat, count as nat),
            at <= c@.len(),
            total == match avcc_sets(c@, at as nat, remaining as nat) {
                Some((t, e)) => Some((out@.skip(start_out.len() as int) + t, e)),
                None => None::<(Seq<u8>, nat)>,
            },
            out@.len() >= start_out.len(),
            out@.take(start_out.len() as int) == start_out,
        decreases remaining,
    {
        if c.len() < 2 || at > c.len() - 2 {
            proof {
                assert(avcc_sets(c@, at as nat, remaining as nat) is None);
            }
            return None;
        }
        let length = (c[at] as usize) * 256 + c[at + 1] as usize;
        let start = at + 2;
        if length > c.len() - start {
            proof {
                assert(avcc_sets(c@, at as nat, remaining as nat) is None);
            }
            return None;
        }
        let ghost before = out@;
        out.push(0);
        out.push(0);
        out.push(0);
        out.push(1);
        let end = start + length;
        let mut j: usize = start;
        let ghost prefix = out@;
        while j < end
            invariant
                start <= j <= end <= c@.len(),
                out@ == prefix + c@.subrange(start as int, j as int),
            decreases end - j,
        {
            out.push(c[j]);
            proof {
                assert(c@.subrange(start as int, j + 1) =~= c@.subrange(start as int, j as int).push(
                    c@[j as int],
                ));
            }
            j = j + 1;
        }
        proof {
            assert(out@ =~= before + (start_code() + c@.subrange(start as int, end as int)));
            assert(out@.take(start_out.len() as int) =~= before.take(start_out.len() as int));
            assert(out@.skip(start_out.len() as int) =~= before.skip(start_out.len() as int) + (start_code()
                + c@.subrange(start as int, end as int)));
            match avcc_sets(c@, end as nat, (remaining - 1) as nat) {
                Some((t, e)) => {
                    assert(before.skip(start_out.len() as int) + (start_code() + c@.subrange(
                        start as int,
                        end as int,
                    ) + t) =~= out@.skip(start_out.len() as int) + t);
                },
                None => {},
            }
        }
        at = end;
        remaining = remaining - 1;
    }
    proof {
        assert(out@ =~= start_out + out@.skip(start_out.len() as int));
        assert(out@.skip(start_out.len() as int) + Seq::<u8>::empty() =~= out@.skip(
            start_out.len() as int,
        ));
    }
    Some(at)
}

/// The parameter sets of an AVC decoder configuration record in Annex B
/// form; empty when the record is malformed.
pub fn avcc_parameter_sets_to_annex_b(configuration: &[u8]) -> (r: Vec<u8>)
    ensures
        r@ == avcc_parameter_sets(configuration@),
{
    if configuration.len() < 7 || configuration[0] != 1 {
        return Vec::new();
    }
    let sps_count = (configuration[5] & 0x1f) as usize;
    let mut annex_b: Vec<u8> = Vec::new();
    let offset = match append_avcc_sets(configuration, 6, sps_count, &mut annex_b) {
        Some(offset) => offset,
        None => return Vec::new(),
    };
    proof {
        assert(annex_b@ =~= Seq::<u8>::empty() + annex_b@);
    }
    if offset >= configuration.len() {
        return annex_b;
    }
    let pps_count = configuration[offset] as usize;
    match append_avcc_sets(configuration, offset + 1, pps_count, &mut annex_b) {
        Some(_) => annex_b,
        None => Vec::new(),
    }
}

} // verus!

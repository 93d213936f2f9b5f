//! The directory-server cache: the two persisted entity types with their
//! fixed binary layout, the consensus-text parser, the staleness policy
//! behind `get_latest_valid_dsinfo`, and the bounded round-robin retry
//! plan of `refresh`. The HTTP fetch and the embedded store stay outside;
//! they hand this module response text and stored bytes as plain values.

use vstd::prelude::*;
use vstd::string::StrSliceExecFns;
use vstd::string::StringExecFns;

use crate::error::Error;
use crate::error::ErrorKind;
use crate::ser::be16;
use crate::ser::be16_val;
use crate::ser::be64;
use crate::ser::be64_val;
use crate::ser::lemma_be16_round_trip;
use crate::ser::lemma_be64_round_trip;
use crate::ser::read_u16;
use crate::ser::read_u64;
use crate::ser::read_u8;
use crate::ser::write_u16;
use crate::ser::write_u64;
use crate::ser::write_u8;
use crate::ser::SerError;
use crate::text::dec_val;
use crate::text::is_canonical_dec;
use crate::text::is_dec;
use crate::text::is_digit;
use crate::text::lemma_dec_val_nonneg;
use crate::text::lemma_spec_dec_canonical;
use crate::text::lemma_spec_dec_val;
use crate::text::lemma_split_chars_first_sep;
use crate::text::lemma_split_chars_no_sep;
use crate::text::parse_dec_bounded;
use crate::text::spec_dec;
use crate::text::split_chars;
use crate::text::split_str;
use crate::text::u64_to_dec;

verus! {

/// One peer endpoint: a dotted-quad IPv4 address and a 16-bit port.
#[derive(Debug)]
pub struct HostInfo {
    pub host: String,
    pub port: u16,
}

/// The mathematical value of a `HostInfo`.
pub struct HostInfoV {
    pub host: Seq<char>,
    pub port: u16,
}

impl View for HostInfo {
    type V = HostInfoV;

    open spec fn view(&self) -> HostInfoV {
        HostInfoV { host: self.host@, port: self.port }
    }
}

impl DeepView for HostInfo {
    type V = HostInfoV;

    open spec fn deep_view(&self) -> HostInfoV {
        self.view()
    }
}

impl Clone for HostInfo {
    fn clone(&self) -> (r: Self)
        ensures
            r == *self,
    {
        HostInfo { host: self.host.clone(), port: self.port }
    }
}

/// The dot-separated fields of a host string.
pub open spec fn host_tokens(host: Seq<char>) -> Seq<Seq<char>> {
    split_chars(host, '.')
}

/// A host string the codec accepts: exactly four fields, each a run of
/// digits whose value fits in one byte.
pub open spec fn host_encodable(host: Seq<char>) -> bool {
    &&& host_tokens(host).len() == 4
    &&& forall|i: int|
        0 <= i < 4 ==> is_dec(#[trigger] host_tokens(host)[i]) && dec_val(host_tokens(host)[i])
            <= 255
}

/// A canonical host string: four canonical decimal octets, as the
/// decoder renders them.
pub open spec fn host_canonical(host: Seq<char>) -> bool {
    &&& host_tokens(host).len() == 4
    &&& forall|i: int|
        0 <= i < 4 ==> is_canonical_dec(#[trigger] host_tokens(host)[i]) && dec_val(
            host_tokens(host)[i],
        ) <= 255
}

/// A well-formed host value, as the decoder produces it.
pub open spec fn host_wf(v: HostInfoV) -> bool {
    host_canonical(v.host)
}

/// Whether a host string is a canonical dotted quad: four decimal
/// octets below 256, none with a superfluous leading zero.
pub fn host_is_canonical(host: &str) -> (b: bool)
    ensures
        b == host_canonical(host@),
{
    let parts = split_str(host, '.');
    proof {
        assert(parts@.len() == parts.deep_view().len());
        assert(forall|i: int|
            0 <= i < parts@.len() ==> #[trigger] parts@[i]@ == parts.deep_view()[i]);
    }
    if parts.len() != 4 {
        return false;
    }
    let mut i: usize = 0;
    while i < 4
        invariant
            0 <= i <= 4,
            parts@.len() == 4,
            parts.deep_view() == host_tokens(host@),
            forall|j: int| 0 <= j < parts@.len() ==> #[trigger] parts@[j]@ == parts.deep_view()[j],
            forall|j: int|
                0 <= j < i ==> is_canonical_dec(#[trigger] host_tokens(host@)[j]) && dec_val(
                    host_tokens(host@)[j],
                ) <= 255,
        decreases 4 - i,
    {
        let tok = parts[i].as_str();
        let ghost t = host_tokens(host@)[i as int];
        match crate::text::parse_dec_bounded(tok, 255) {
            Some(_) => {},
            None => {
                return false;
            },
        }
        if tok.unicode_len() != 1 && tok.get_char(0) == '0' {
            proof {
                crate::text::lemma_canonical_iff_no_leading_zero(t);
            }
            return false;
        }
        proof {
            crate::text::lemma_canonical_iff_no_leading_zero(t);
        }
        i += 1;
    }
    true
}

/// The six bytes of an encodable host value: one byte per octet, then
/// the port in big-endian order.
pub open spec fn spec_host_bytes(v: HostInfoV) -> Seq<u8> {
    let t = host_tokens(v.host);
    seq![
        dec_val(t[0]) as u8,
        dec_val(t[1]) as u8,
        dec_val(t[2]) as u8,
        dec_val(t[3]) as u8,
    ] + be16(v.port)
}

/// The canonical dotted-quad rendering of four octets.
pub open spec fn host_chars(b: Seq<u8>) -> Seq<char>
    recommends
        b.len() == 4,
{
    spec_dec(b[0] as int) + seq!['.'] + spec_dec(b[1] as int) + seq!['.'] + spec_dec(b[2] as int)
        + seq!['.'] + spec_dec(b[3] as int)
}

/// The host value of six bytes.
pub open spec fn spec_host_of_bytes(b: Seq<u8>) -> HostInfoV
    recommends
        b.len() == 6,
{
    HostInfoV { host: host_chars(b.take(4)), port: be16_val(b.skip(4)) }
}

/// A digit is never a field separator.
proof fn lemma_digit_not_sep(c: char)
    requires
        is_digit(c),
    ensures
        c != '.',
        c != ':',
        c != ' ',
        c != '\n',
{
    assert('.' as u32 == 46);
    assert(':' as u32 == 58);
    assert(' ' as u32 == 32);
    assert('\n' as u32 == 10);
}

/// The dotted-quad rendering of four octets splits back into the four
/// canonical octet fields.
pub proof fn lemma_host_chars_tokens(b: Seq<u8>)
    requires
        b.len() == 4,
    ensures
        host_tokens(host_chars(b)) == seq![
            spec_dec(b[0] as int),
            spec_dec(b[1] as int),
            spec_dec(b[2] as int),
            spec_dec(b[3] as int),
        ],
{
    let d0 = spec_dec(b[0] as int);
    let d1 = spec_dec(b[1] as int);
    let d2 = spec_dec(b[2] as int);
    let d3 = spec_dec(b[3] as int);
    lemma_spec_dec_val(b[0] as int);
    lemma_spec_dec_val(b[1] as int);
    lemma_spec_dec_val(b[2] as int);
    lemma_spec_dec_val(b[3] as int);
    assert forall|c: char| #[trigger] is_digit(c) implies c != '.' by {
        lemma_digit_not_sep(c);
    }
    let s0 = host_chars(b);
    let s1 = d1 + seq!['.'] + d2 + seq!['.'] + d3;
    let s2 = d2 + seq!['.'] + d3;
    assert(s0[d0.len() as int] == '.');
    assert(forall|j: int| 0 <= j < d0.len() ==> s0[j] == d0[j]);
    lemma_split_chars_first_sep(s0, '.', d0.len() as int);
    assert(s0.take(d0.len() as int) =~= d0);
    assert(s0.skip(d0.len() as int + 1) =~= s1);
    assert(s1[d1.len() as int] == '.');
    assert(forall|j: int| 0 <= j < d1.len() ==> s1[j] == d1[j]);
    lemma_split_chars_first_sep(s1, '.', d1.len() as int);
    assert(s1.take(d1.len() as int) =~= d1);
    assert(s1.skip(d1.len() as int + 1) =~= s2);
    assert(s2[d2.len() as int] == '.');
    assert(forall|j: int| 0 <= j < d2.len() ==> s2[j] == d2[j]);
    lemma_split_chars_first_sep(s2, '.', d2.len() as int);
    assert(s2.take(d2.len() as int) =~= d2);
    assert(s2.skip(d2.len() as int + 1) =~= d3);
    lemma_split_chars_no_sep(d3, '.');
    assert(host_tokens(host_chars(b)) =~~= seq![d0, d1, d2, d3]);
}

/// Round-trip law for one endpoint: decoding the encoding of any
/// well-formed host value gives the value back.
pub proof fn lemma_host_info_round_trip(v: HostInfoV)
    requires
        host_wf(v),
    ensures
        host_encodable(v.host),
        spec_host_bytes(v).len() == 6,
        spec_host_of_bytes(spec_host_bytes(v)) == v,
{
    let t = host_tokens(v.host);
    assert forall|i: int| 0 <= i < 4 implies is_dec(#[trigger] t[i]) && dec_val(t[i]) <= 255 by {}
    let b = spec_host_bytes(v);
    let q = b.take(4);
    assert forall|i: int| 0 <= i < 4 implies dec_val(t[i]) >= 0 by {
        lemma_dec_val_nonneg(t[i]);
    }
    assert(q =~= seq![
        dec_val(t[0]) as u8,
        dec_val(t[1]) as u8,
        dec_val(t[2]) as u8,
        dec_val(t[3]) as u8,
    ]);
    lemma_host_chars_tokens(q);
    assert forall|i: int| 0 <= i < 4 implies spec_dec(q[i] as int) == t[i] by {
        assert(q[i] as int == dec_val(t[i]));
    }
    crate::text::lemma_join_split_chars(v.host, '.');
    assert(host_chars(q) =~= crate::text::join_chars(seq![t[0], t[1], t[2], t[3]], '.')) by {
        let parts = seq![t[0], t[1], t[2], t[3]];
        reveal_with_fuel(crate::text::join_chars, 5);
        assert(parts.drop_first() =~~= seq![t[1], t[2], t[3]]);
        assert(seq![t[1], t[2], t[3]].drop_first() =~~= seq![t[2], t[3]]);
        assert(seq![t[2], t[3]].drop_first() =~~= seq![t[3]]);
        assert(crate::text::join_chars(seq![t[3]], '.') == t[3]);
        assert(crate::text::join_chars(seq![t[2], t[3]], '.') == t[2] + seq!['.'] + t[3]);
        assert(crate::text::join_chars(seq![t[1], t[2], t[3]], '.') == t[1] + seq!['.'] + (t[2]
            + seq!['.'] + t[3]));
        assert(crate::text::join_chars(parts, '.') == t[0] + seq!['.'] + (t[1] + seq!['.'] + (t[2]
            + seq!['.'] + t[3])));
    }
    assert(t =~~= seq![t[0], t[1], t[2], t[3]]);
    assert(host_chars(q) == v.host);
    assert(b.skip(4) =~= be16(v.port));
    lemma_be16_round_trip(v.port);
}

impl HostInfo {
    /// Encode this endpoint as six bytes appended to `w`: four octet
    /// bytes, then the big-endian port. A host string that is not four
    /// byte-sized decimal fields is rejected and `w` is left unchanged.
    pub fn write(&self, w: &mut Vec<u8>) -> (r: Result<(), SerError>)
        ensures
            r is Ok <==> host_encodable(self.host@),
            r is Ok ==> final(w)@ == old(w)@ + spec_host_bytes(self@),
            r is Err ==> final(w)@ == old(w)@ && r == Err::<(), SerError>(SerError::CorruptedData),
    {
        let parts = split_str(self.host.as_str(), '.');
        proof {
            assert(parts.deep_view().len() == parts@.len());
            assert(forall|i: int|
                0 <= i < parts@.len() ==> parts.deep_view()[i] == #[trigger] parts@[i]@);
        }
        if parts.len() != 4 {
            return Err(SerError::CorruptedData);
        }
        let o0 = match parse_dec_bounded(parts[0].as_str(), 255) {
            Some(v) => v,
            None => { return Err(SerError::CorruptedData) },
        };
        let o1 = match parse_dec_bounded(parts[1].as_str(), 255) {
            Some(v) => v,
            None => { return Err(SerError::CorruptedData) },
        };
        let o2 = match parse_dec_bounded(parts[2].as_str(), 255) {
            Some(v) => v,
            None => { return Err(SerError::CorruptedData) },
        };
        let o3 = match parse_dec_bounded(parts[3].as_str(), 255) {
            Some(v) => v,
            None => { return Err(SerError::CorruptedData) },
        };
        write_u8(w, o0 as u8);
        write_u8(w, o1 as u8);
        write_u8(w, o2 as u8);
        write_u8(w, o3 as u8);
        write_u16(w, self.port);
        proof {
            assert(w@ =~= old(w)@ + spec_host_bytes(self@));
        }
        Ok(())
    }

    /// Decode one endpoint from six bytes at `pos`: the host string is
    /// rebuilt in canonical dotted-quad form. Fails, leaving `pos`
    /// unchanged, when fewer than six bytes remain.
    pub fn read(data: &Vec<u8>, pos: &mut usize) -> (r: Result<HostInfo, SerError>)
        ensures
            *old(pos) + 6 <= data@.len() ==> (r matches Ok(h) && h@ == spec_host_of_bytes(
                data@.subrange(*old(pos) as int, *old(pos) + 6),
            ) && host_wf(h@) && *final(pos) == *old(pos) + 6),
            *old(pos) + 6 > data@.len() ==> r == Err::<HostInfo, SerError>(
                SerError::CorruptedData,
            ) && *final(pos) == *old(pos),
    {
        let mut p = *pos;
        let o0 = match read_u8(data, &mut p) {
            Ok(v) => v,
            Err(e) => { return Err(e) },
        };
        let o1 = match read_u8(data, &mut p) {
            Ok(v) => v,
            Err(e) => { return Err(e) },
        };
        let o2 = match read_u8(data, &mut p) {
            Ok(v) => v,
            Err(e) => { return Err(e) },
        };
        let o3 = match read_u8(data, &mut p) {
            Ok(v) => v,
            Err(e) => { return Err(e) },
        };
        let port = match read_u16(data, &mut p) {
            Ok(v) => v,
            Err(e) => { return Err(e) },
        };
        let mut host = u64_to_dec(o0 as u64);
        let dot = ".";
        proof {
            reveal_strlit(".");
            assert(dot@ =~= seq!['.']);
        }
        host.append(dot);
        let s1 = u64_to_dec(o1 as u64);
        host.append(s1.as_str());
        host.append(dot);
        let s2 = u64_to_dec(o2 as u64);
        host.append(s2.as_str());
        host.append(dot);
        let s3 = u64_to_dec(o3 as u64);
        host.append(s3.as_str());
        let h = HostInfo { host, port };
        proof {
            let b = data@.subrange(*old(pos) as int, *old(pos) + 6);
            assert(b.take(4) =~= seq![o0, o1, o2, o3]);
            assert(b.skip(4) =~= data@.subrange(*old(pos) + 4, *old(pos) + 6));
            assert(h.host@ =~= host_chars(b.take(4)));
            lemma_host_chars_tokens(b.take(4));
            lemma_spec_dec_canonical(o0 as int);
            lemma_spec_dec_canonical(o1 as int);
            lemma_spec_dec_canonical(o2 as int);
            lemma_spec_dec_canonical(o3 as int);
            lemma_spec_dec_val(o0 as int);
            lemma_spec_dec_val(o1 as int);
            lemma_spec_dec_val(o2 as int);
            lemma_spec_dec_val(o3 as int);
            assert(host_wf(h@));
        }
        *pos = p;
        Ok(h)
    }
}

/// A cache snapshot: the fetched endpoints in fetch order, and the
/// moment the fetch completed, in milliseconds since the epoch.
#[derive(Debug)]
pub struct DSInfo {
    pub hosts: Vec<HostInfo>,
    pub load_time: u128,
}

/// The mathematical value of a `DSInfo`.
pub struct DSInfoV {
    pub hosts: Seq<HostInfoV>,
    pub load_time: u128,
}

impl View for DSInfo {
    type V = DSInfoV;

    open spec fn view(&self) -> DSInfoV {
        DSInfoV { hosts: self.hosts.deep_view(), load_time: self.load_time }
    }
}

impl DeepView for DSInfo {
    type V = DSInfoV;

    open spec fn deep_view(&self) -> DSInfoV {
        self.view()
    }
}

impl Clone for DSInfo {
    fn clone(&self) -> (r: Self)
        ensures
            r@ == self@,
    {
        let mut hosts: Vec<HostInfo> = Vec::new();
        let mut i: usize = 0;
        while i < self.hosts.len()
            invariant
                0 <= i <= self.hosts.len(),
                hosts.deep_view() == self.hosts.deep_view().take(i as int),
            decreases self.hosts.len() - i,
        {
            let ghost prev = hosts.deep_view();
            hosts.push(self.hosts[i].clone());
            proof {
                assert(hosts.deep_view() =~~= prev.push(self.hosts@[i as int]@));
                assert(hosts.deep_view() =~~= self.hosts.deep_view().take(i + 1));
            }
            i += 1;
        }
        proof {
            assert(self.hosts.deep_view().take(self.hosts@.len() as int) =~~=
                self.hosts.deep_view());
        }
        DSInfo { hosts, load_time: self.load_time }
    }
}

/// A snapshot the codec accepts: the load time fits the eight-byte
/// field and every endpoint is encodable.
pub open spec fn ds_encodable(v: DSInfoV) -> bool {
    &&& v.load_time <= u64::MAX
    &&& v.hosts.len() <= u64::MAX
    &&& forall|i: int| 0 <= i < v.hosts.len() ==> host_encodable(#[trigger] v.hosts[i].host)
}

/// A well-formed snapshot value, as the decoder produces it.
pub open spec fn ds_wf(v: DSInfoV) -> bool {
    &&& v.load_time <= u64::MAX
    &&& v.hosts.len() <= u64::MAX
    &&& forall|i: int| 0 <= i < v.hosts.len() ==> host_wf(#[trigger] v.hosts[i])
}

/// The concatenated six-byte records of a sequence of endpoints.
pub open spec fn flat_host_bytes(hs: Seq<HostInfoV>) -> Seq<u8>
    decreases hs.len(),
{
    if hs.len() == 0 {
        Seq::<u8>::empty()
    } else {
        flat_host_bytes(hs.drop_last()) + spec_host_bytes(hs.last())
    }
}

pub proof fn lemma_flat_host_bytes_len(hs: Seq<HostInfoV>)
    ensures
        flat_host_bytes(hs).len() == 6 * hs.len(),
    decreases hs.len(),
{
    if hs.len() > 0 {
        lemma_flat_host_bytes_len(hs.drop_last());
    }
}

/// The bytes of a snapshot: load time, then the record count, each in
/// eight big-endian bytes, then the six-byte endpoint records.
pub open spec fn spec_ds_bytes(v: DSInfoV) -> Seq<u8> {
    be64(v.load_time as u64) + be64(v.hosts.len() as u64) + flat_host_bytes(v.hosts)
}

/// True when the buffer really holds, from `pos` on, the two header
/// fields and as many records as the count field declares.
pub open spec fn ds_bytes_ok(bytes: Seq<u8>, pos: int) -> bool {
    &&& pos + 16 <= bytes.len()
    &&& pos + 16 + 6 * (be64_val(bytes.subrange(pos + 8, pos + 16)) as int) <= bytes.len()
}

/// The endpoint values of `count` consecutive six-byte records.
pub open spec fn dec_hosts(bytes: Seq<u8>, start: int, count: int) -> Seq<HostInfoV>
    decreases count,
{
    if count <= 0 {
        Seq::<HostInfoV>::empty()
    } else {
        dec_hosts(bytes, start, count - 1).push(
            spec_host_of_bytes(bytes.subrange(start + 6 * (count - 1), start + 6 * count)),
        )
    }
}

/// The snapshot value of a byte buffer, read at `pos`.
pub open spec fn spec_ds_of_bytes(bytes: Seq<u8>, pos: int) -> DSInfoV
    recommends
        ds_bytes_ok(bytes, pos),
{
    let count = be64_val(bytes.subrange(pos + 8, pos + 16)) as int;
    DSInfoV {
        hosts: dec_hosts(bytes, pos + 16, count),
        load_time: be64_val(bytes.subrange(pos, pos + 8)) as u128,
    }
}

/// Decoding consecutive records recovers the encoded endpoints.
proof fn lemma_dec_flat_hosts(hs: Seq<HostInfoV>, bytes: Seq<u8>, start: int)
    requires
        forall|i: int| 0 <= i < hs.len() ==> host_wf(#[trigger] hs[i]),
        0 <= start,
        start + 6 * hs.len() <= bytes.len(),
        bytes.subrange(start, start + 6 * hs.len()) == flat_host_bytes(hs),
    ensures
        dec_hosts(bytes, start, hs.len() as int) == hs,
    decreases hs.len(),
{
    if hs.len() > 0 {
        let n = hs.len() as int;
        lemma_flat_host_bytes_len(hs);
        lemma_flat_host_bytes_len(hs.drop_last());
        lemma_host_info_round_trip(hs.last());
        assert(flat_host_bytes(hs) == flat_host_bytes(hs.drop_last()) + spec_host_bytes(hs.last()));
        assert(bytes.subrange(start, start + 6 * (n - 1)) =~= flat_host_bytes(hs.drop_last()));
        lemma_dec_flat_hosts(hs.drop_last(), bytes, start);
        assert forall|j: int| 0 <= j < 6 implies bytes.subrange(
            start + 6 * (n - 1),
            start + 6 * n,
        )[j] == spec_host_bytes(hs.last())[j] by {
            assert(bytes.subrange(start, start + 6 * hs.len())[6 * (n - 1) + j] == flat_host_bytes(
                hs,
            )[6 * (n - 1) + j]);
        }
        assert(bytes.subrange(start + 6 * (n - 1), start + 6 * n) =~= spec_host_bytes(hs.last()));
        assert(dec_hosts(bytes, start, n) =~~= hs);
    } else {
        assert(dec_hosts(bytes, start, 0) =~~= hs);
    }
}

/// Round-trip law for a snapshot: decoding the encoding of any
/// well-formed snapshot value gives the value back.
pub proof fn lemma_ds_info_round_trip(v: DSInfoV)
    requires
        ds_wf(v),
    ensures
        ds_encodable(v),
        ds_bytes_ok(spec_ds_bytes(v), 0),
        spec_ds_of_bytes(spec_ds_bytes(v), 0) == v,
{
    assert forall|i: int| 0 <= i < v.hosts.len() implies host_encodable(
        #[trigger] v.hosts[i].host,
    ) by {
        lemma_host_info_round_trip(v.hosts[i]);
    }
    let b = spec_ds_bytes(v);
    lemma_flat_host_bytes_len(v.hosts);
    lemma_be64_round_trip(v.load_time as u64);
    lemma_be64_round_trip(v.hosts.len() as u64);
    assert(b.subrange(0, 8) =~= be64(v.load_time as u64));
    assert(b.subrange(8, 16) =~= be64(v.hosts.len() as u64));
    assert(b.subrange(16, 16 + 6 * v.hosts.len() as int) =~= flat_host_bytes(v.hosts));
    lemma_dec_flat_hosts(v.hosts, b, 16);
    assert(spec_ds_of_bytes(b, 0) == v);
}

impl DSInfo {
    /// Encode this snapshot, appending its bytes to `w`: load time and
    /// record count in big-endian order, then every endpoint record. A
    /// load time beyond the eight-byte field or an endpoint whose host
    /// string is not four byte-sized decimal fields is rejected, and
    /// `w` is left unchanged.
    pub fn write(&self, w: &mut Vec<u8>) -> (r: Result<(), SerError>)
        ensures
            r is Ok <==> ds_encodable(self@),
            r is Ok ==> final(w)@ == old(w)@ + spec_ds_bytes(self@),
            r is Err ==> final(w)@ == old(w)@ && r == Err::<(), SerError>(SerError::CorruptedData),
    {
        if self.load_time > u64::MAX as u128 {
            return Err(SerError::CorruptedData);
        }
        let mut tmp: Vec<u8> = Vec::new();
        write_u64(&mut tmp, self.load_time as u64);
        write_u64(&mut tmp, self.hosts.len() as u64);
        proof {
            assert(tmp@ =~= be64(self.load_time as u64) + be64(self.hosts@.len() as u64));
        }
        let mut i: usize = 0;
        while i < self.hosts.len()
            invariant
                0 <= i <= self.hosts.len(),
                forall|j: int| 0 <= j < i ==> host_encodable(#[trigger] self@.hosts[j].host),
                tmp@ == be64(self.load_time as u64) + be64(self.hosts@.len() as u64)
                    + flat_host_bytes(self@.hosts.take(i as int)),
            decreases self.hosts.len() - i,
        {
            let ghost prev = tmp@;
            proof {
                assert(self@.hosts[i as int] == self.hosts@[i as int]@);
            }
            match self.hosts[i].write(&mut tmp) {
                Ok(()) => {},
                Err(e) => {
                    proof {
                        assert(!host_encodable(self.hosts@[i as int]@.host));
                        assert(self@.hosts[i as int].host == self.hosts@[i as int]@.host);
                        assert(!ds_encodable(self@));
                    }
                    return Err(e);
                },
            }
            proof {
                assert(self@.hosts.take(i + 1).drop_last() =~~= self@.hosts.take(i as int));
                assert(self@.hosts.take(i + 1).last() == self@.hosts[i as int]);
                assert(tmp@ =~= be64(self.load_time as u64) + be64(self.hosts@.len() as u64)
                    + flat_host_bytes(self@.hosts.take(i + 1)));
            }
            i += 1;
        }
        proof {
            assert(self@.hosts.take(self.hosts@.len() as int) =~~= self@.hosts);
        }
        w.append(&mut tmp);
        Ok(())
    }

    /// Decode one snapshot from the buffer at `pos`. Fails, leaving
    /// `pos` unchanged, when the header does not fit or the buffer is
    /// shorter than the declared record count implies.
    pub fn read(data: &Vec<u8>, pos: &mut usize) -> (r: Result<DSInfo, SerError>)
        ensures
            ds_bytes_ok(data@, *old(pos) as int) ==> (r matches Ok(d) && d@ == spec_ds_of_bytes(
                data@,
                *old(pos) as int,
            ) && ds_wf(d@) && *final(pos) == *old(pos) + 16 + 6 * (be64_val(
                data@.subrange(*old(pos) + 8, *old(pos) + 16),
            ) as int)),
            !ds_bytes_ok(data@, *old(pos) as int) ==> r == Err::<DSInfo, SerError>(
                SerError::CorruptedData,
            ) && *final(pos) == *old(pos),
    {
        let mut p = *pos;
        let load_time = match read_u64(data, &mut p) {
            Ok(v) => v,
            Err(e) => { return Err(e) },
        };
        let count = match read_u64(data, &mut p) {
            Ok(v) => v,
            Err(e) => { return Err(e) },
        };
        if (count as u128) * 6 > (data.len() - p) as u128 {
            return Err(SerError::CorruptedData);
        }
        let n = count as usize;
        let ghost start = p as int;
        let mut hosts: Vec<HostInfo> = Vec::new();
        let mut i: usize = 0;
        while i < n
            invariant
                0 <= i <= n,
                p == start + 6 * i,
                start + 6 * n <= data@.len(),
                hosts@.len() == i,
                hosts.deep_view() == dec_hosts(data@, start, i as int),
                forall|j: int| 0 <= j < i ==> host_wf(#[trigger] hosts.deep_view()[j]),
            decreases n - i,
        {
            let ghost prev = hosts.deep_view();
            let h = match HostInfo::read(data, &mut p) {
                Ok(h) => h,
                Err(e) => { return Err(e) },
            };
            hosts.push(h);
            proof {
                assert(hosts.deep_view() =~~= prev.push(h@));
                assert(hosts.deep_view() =~~= dec_hosts(data@, start, i + 1));
                assert(forall|j: int| 0 <= j < i ==> hosts.deep_view()[j] == prev[j]);
                assert(hosts.deep_view()[i as int] == h@);
                assert(host_wf(h@));
            }
            i += 1;
        }
        *pos = p;
        let d = DSInfo { hosts, load_time: load_time as u128 };
        proof {
            assert(d@.hosts == dec_hosts(data@, *old(pos) + 16, n as int));
            assert(n as int == be64_val(data@.subrange(*old(pos) + 8, *old(pos) + 16)) as int);
            assert(d@ == spec_ds_of_bytes(data@, *old(pos) as int));
        }
        Ok(d)
    }
}

/// The marker of a candidate record: the line opens with `r` and a
/// space.
pub open spec fn is_candidate_line(line: Seq<char>) -> bool {
    line.len() >= 2 && line[0] == 'r' && line[1] == ' '
}

/// The space-separated fields of one line; empty fields count.
pub open spec fn line_tokens(line: Seq<char>) -> Seq<Seq<char>> {
    split_chars(line, ' ')
}

/// A candidate line the parser accepts: it reaches the eighth field,
/// and that field is a decimal port that fits sixteen bits.
pub open spec fn line_ok(line: Seq<char>) -> bool {
    &&& line_tokens(line).len() >= 8
    &&& is_dec(line_tokens(line)[7])
    &&& dec_val(line_tokens(line)[7]) <= 65535
}

/// The endpoint a candidate line carries: the seventh field is the
/// host, the eighth the port.
pub open spec fn line_host(line: Seq<char>) -> HostInfoV {
    HostInfoV { host: line_tokens(line)[6], port: dec_val(line_tokens(line)[7]) as u16 }
}

/// The lines of a fetched response.
pub open spec fn response_lines(text: Seq<char>) -> Seq<Seq<char>> {
    split_chars(text, '\n')
}

/// Whether every candidate line of the response parses.
pub open spec fn consensus_ok(text: Seq<char>) -> bool {
    forall|i: int|
        0 <= i < response_lines(text).len() && is_candidate_line(
            #[trigger] response_lines(text)[i],
        ) ==> line_ok(response_lines(text)[i])
}

/// The endpoints of the candidate lines, in response order.
pub open spec fn hosts_of_lines(lines: Seq<Seq<char>>) -> Seq<HostInfoV>
    decreases lines.len(),
{
    if lines.len() == 0 {
        Seq::<HostInfoV>::empty()
    } else {
        let rest = hosts_of_lines(lines.drop_last());
        if is_candidate_line(lines.last()) {
            rest.push(line_host(lines.last()))
        } else {
            rest
        }
    }
}

/// The endpoints a response yields, in fetch order.
pub open spec fn consensus_hosts(text: Seq<char>) -> Seq<HostInfoV> {
    hosts_of_lines(response_lines(text))
}

/// True when the line opens with the candidate marker.
fn line_is_candidate(line: &str) -> (b: bool)
    ensures
        b == is_candidate_line(line@),
{
    let n = line.unicode_len();
    if n < 2 {
        return false;
    }
    if line.get_char(0) != 'r' {
        return false;
    }
    line.get_char(1) == ' '
}

/// Parse newline-delimited consensus text: a line is a candidate record
/// only when it opens with the `r ` marker; other lines are skipped. Of
/// a candidate line the seventh whitespace-separated field is the host
/// and the eighth the port; a candidate line whose port field is absent
/// or not a 16-bit decimal fails the whole parse.
pub fn parse_consensus(text: &str) -> (r: Result<Vec<HostInfo>, Error>)
    ensures
        r is Ok <==> consensus_ok(text@),
        r matches Ok(hs) ==> hs.deep_view() == consensus_hosts(text@),
        r matches Err(e) ==> (e.kind matches ErrorKind::ParseIntError(m) && m@
            == "invalid port in consensus line"@),
{
    let lines = split_str(text, '\n');
    let ghost ls = lines.deep_view();
    let mut hosts: Vec<HostInfo> = Vec::new();
    let mut i: usize = 0;
    proof {
        assert(lines@.len() == ls.len());
        assert(hosts.deep_view() =~~= hosts_of_lines(ls.take(0)));
    }
    while i < lines.len()
        invariant
            0 <= i <= lines@.len(),
            lines@.len() == ls.len(),
            ls == response_lines(text@),
            forall|j: int| 0 <= j < ls.len() ==> #[trigger] lines@[j]@ == ls[j],
            hosts.deep_view() == hosts_of_lines(ls.take(i as int)),
            forall|j: int|
                0 <= j < i && is_candidate_line(#[trigger] ls[j]) ==> line_ok(ls[j]),
        decreases lines@.len() - i,
    {
        let line = &lines[i];
        if line_is_candidate(line.as_str()) {
            let toks = split_str(line.as_str(), ' ');
            proof {
                assert(toks@.len() == toks.deep_view().len());
                assert(forall|j: int|
                    0 <= j < toks@.len() ==> #[trigger] toks@[j]@ == toks.deep_view()[j]);
            }
            if toks.len() < 8 {
                return Err(
                    Error {
                        kind: ErrorKind::ParseIntError(
                            "invalid port in consensus line".to_owned(),
                        ),
                    },
                );
            }
            let port = match parse_dec_bounded(toks[7].as_str(), 65535) {
                Some(v) => v,
                None => {
                    return Err(
                        Error {
                            kind: ErrorKind::ParseIntError(
                                "invalid port in consensus line".to_owned(),
                            ),
                        },
                    );
                },
            };
            let host = toks[6].clone();
            let ghost prev = hosts.deep_view();
            hosts.push(HostInfo { host, port: port as u16 });
            proof {
                assert(hosts.deep_view() =~~= prev.push(line_host(ls[i as int])));
                assert(ls.take(i + 1).drop_last() =~~= ls.take(i as int));
                assert(ls.take(i + 1).last() == ls[i as int]);
            }
        } else {
            proof {
                assert(ls.take(i + 1).drop_last() =~~= ls.take(i as int));
                assert(ls.take(i + 1).last() == ls[i as int]);
            }
        }
        i += 1;
    }
    proof {
        assert(ls.take(ls.len() as int) =~~= ls);
    }
    Ok(hosts)
}

/// The staleness policy: a refresh must happen when no snapshot is
/// stored, or when more than `refresh_timeout` milliseconds have passed
/// since the stored one was loaded.
pub open spec fn spec_needs_refresh(
    snapshot: Option<DSInfoV>,
    now: u128,
    refresh_timeout: u64,
) -> bool {
    match snapshot {
        None => true,
        Some(s) => now > s.load_time + refresh_timeout,
    }
}

/// Decide whether `get_latest_valid_dsinfo` must refresh before
/// answering: yes exactly when nothing is stored or the stored snapshot
/// is older than the refresh timeout.
pub fn needs_refresh(snapshot: &Option<DSInfo>, now: u128, refresh_timeout: u64) -> (b: bool)
    ensures
        b == spec_needs_refresh(snapshot.deep_view(), now, refresh_timeout),
{
    match snapshot {
        None => true,
        Some(s) => now > refresh_timeout as u128 && now - refresh_timeout as u128 > s.load_time,
    }
}

/// The staleness boundary: whatever a snapshot holds, if it was loaded
/// at `T` under staleness bound `R`, asking for the latest snapshot at
/// `T + R + 1` forces a refresh first, and asking at `T + R - 1` does
/// not.
pub proof fn lemma_staleness_boundary(hosts: Seq<HostInfoV>, load_time: u128, refresh_timeout: u64)
    requires
        load_time + refresh_timeout + 1 <= u128::MAX,
        load_time + refresh_timeout >= 1,
    ensures
        spec_needs_refresh(
            Some(DSInfoV { hosts, load_time }),
            ((load_time + refresh_timeout + 1) as u128),
            refresh_timeout,
        ),
        !spec_needs_refresh(
            Some(DSInfoV { hosts, load_time }),
            ((load_time + refresh_timeout - 1) as u128),
            refresh_timeout,
        ),
{
}

/// A refresh that the staleness policy triggered never moves the stored
/// load time backwards: the snapshot it persists is stamped `now`, and
/// staleness puts `now` past the prior snapshot's load time.
pub proof fn lemma_refresh_load_time_monotone(prior: DSInfoV, now: u128, refresh_timeout: u64)
    requires
        spec_needs_refresh(Some(prior), now, refresh_timeout),
    ensures
        now >= prior.load_time,
{
}

/// The delay before the second fetch attempt, in milliseconds.
pub const INITIAL_RETRY_DELAY_MS: u64 = 100;

/// The ceiling the doubling retry delay never passes, in milliseconds.
pub const MAX_RETRY_DELAY_MS: u64 = 60000;

/// The retry plan of `refresh`: bootstrap servers are tried round-robin,
/// the wait between failed attempts doubles up to a ceiling, and after
/// `max_attempts` failed fetches the refresh ends in a terminal error
/// instead of looping forever.
pub struct RefreshRetry {
    pub attempt: u64,
    pub max_attempts: u64,
    pub delay_ms: u64,
}

impl RefreshRetry {
    /// A fresh plan: no attempt made yet, the initial delay pending.
    pub fn new(max_attempts: u64) -> (r: Self)
        ensures
            r.attempt == 0,
            r.max_attempts == max_attempts,
            r.delay_ms == INITIAL_RETRY_DELAY_MS,
    {
        RefreshRetry { attempt: 0, max_attempts, delay_ms: INITIAL_RETRY_DELAY_MS }
    }

    /// Round-robin server selection: the Nth attempt asks server
    /// `N mod server_count`.
    pub fn server_index(&self, server_count: usize) -> (idx: usize)
        requires
            server_count > 0,
        ensures
            idx as int == self.attempt as int % server_count as int,
    {
        (self.attempt % server_count as u64) as usize
    }

    /// Record one failed fetch. Gives the delay to sleep before the
    /// next attempt, doubling it for the one after, or `None` when the
    /// attempts are exhausted and the refresh must fail terminally.
    pub fn on_failure(&mut self) -> (r: Option<u64>)
        ensures
            r is Some <==> old(self).attempt + 1 < old(self).max_attempts,
            r matches Some(d) ==> d == old(self).delay_ms
                && final(self).attempt == old(self).attempt + 1
                && final(self).max_attempts == old(self).max_attempts
                && final(self).delay_ms == (if 2 * (old(self).delay_ms as int)
                    <= MAX_RETRY_DELAY_MS {
                    2 * (old(self).delay_ms as int)
                } else {
                    MAX_RETRY_DELAY_MS as int
                }),
            r is None ==> *final(self) == *old(self),
    {
        if self.attempt >= u64::MAX - 1 || self.attempt + 1 >= self.max_attempts {
            return None;
        }
        let d = self.delay_ms;
        self.attempt = self.attempt + 1;
        self.delay_ms = if self.delay_ms <= MAX_RETRY_DELAY_MS / 2 {
            2 * self.delay_ms
        } else {
            MAX_RETRY_DELAY_MS
        };
        Some(d)
    }
}

/// The fetch target of one refresh attempt: a plain HTTP consensus
/// request against one bootstrap server.
pub fn consensus_url(server: &str) -> (r: String)
    ensures
        r@ == "http://"@ + server@ + "/tor/status-vote/current/consensus/"@,
{
    let mut url = "http://".to_owned();
    url.append(server);
    url.append("/tor/status-vote/current/consensus/");
    url
}

/// Build the snapshot one successful fetch persists: the candidate
/// endpoints of the response in fetch order, stamped with the moment
/// `now` the fetch completed.
pub fn build_snapshot(text: &str, now: u128) -> (r: Result<DSInfo, Error>)
    ensures
        r is Ok <==> consensus_ok(text@),
        r matches Ok(d) ==> d@.hosts == consensus_hosts(text@) && d@.load_time == now,
        r matches Err(e) ==> e.kind matches ErrorKind::ParseIntError(_),
{
    match parse_consensus(text) {
        Ok(hosts) => Ok(DSInfo { hosts, load_time: now }),
        Err(e) => Err(e),
    }
}

/// Serialize a snapshot for the store, as `update_db` persists it under
/// its single key.
pub fn encode_snapshot(d: &DSInfo) -> (r: Result<Vec<u8>, Error>)
    ensures
        r is Ok <==> ds_encodable(d@),
        r matches Ok(b) ==> b@ == spec_ds_bytes(d@),
        r matches Err(e) ==> (e.kind matches ErrorKind::StoreError(m) && m@
            == "corrupted data"@),
{
    let mut buf: Vec<u8> = Vec::new();
    match d.write(&mut buf) {
        Ok(()) => {
            proof {
                assert(buf@ =~= spec_ds_bytes(d@));
            }
            Ok(buf)
        },
        Err(_) => Err(Error { kind: ErrorKind::StoreError("corrupted data".to_owned()) }),
    }
}

/// Decode the snapshot bytes read from the store's single key.
pub fn decode_snapshot(bytes: &Vec<u8>) -> (r: Result<DSInfo, Error>)
    ensures
        r is Ok <==> ds_bytes_ok(bytes@, 0),
        r matches Ok(d) ==> d@ == spec_ds_of_bytes(bytes@, 0) && ds_wf(d@),
        r matches Err(e) ==> (e.kind matches ErrorKind::StoreError(m) && m@
            == "corrupted data"@),
{
    let mut pos: usize = 0;
    match DSInfo::read(bytes, &mut pos) {
        Ok(d) => Ok(d),
        Err(_) => Err(Error { kind: ErrorKind::StoreError("corrupted data".to_owned()) }),
    }
}

/// Everything of `update_db` between the fetch and the store: parse the
/// response, stamp the snapshot, and serialize it for the single key.
pub fn snapshot_bytes_from_response(text: &str, now: u128) -> (r: Result<Vec<u8>, Error>)
    ensures
        r is Ok <==> consensus_ok(text@) && ds_encodable(
            DSInfoV { hosts: consensus_hosts(text@), load_time: now },
        ),
        r matches Ok(b) ==> b@ == spec_ds_bytes(
            DSInfoV { hosts: consensus_hosts(text@), load_time: now },
        ),
        r matches Err(e) ==> (e.kind matches ErrorKind::ParseIntError(_) || e.kind matches
            ErrorKind::StoreError(_)),
{
    match build_snapshot(text, now) {
        Ok(d) => encode_snapshot(&d),
        Err(e) => Err(e),
    }
}

} // verus!

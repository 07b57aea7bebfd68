//! Per-source-address reputation records.
//!
//! Each source address owns one [`Ip`] record holding a trust budget that is
//! decremented on every contact and restored by an hour of silence. A record
//! whose budget reaches zero is blacklisted permanently. Records are stored
//! in an external key-value store as bytes; the byte format is an internal
//! contract of this crate and round-trips exactly.

use vstd::prelude::*;
use vstd::bytes::{lemma_auto_spec_u32_to_from_le_bytes, lemma_auto_spec_u64_to_from_le_bytes,
    spec_u32_from_le_bytes, spec_u32_to_le_bytes, spec_u64_from_le_bytes, spec_u64_to_le_bytes,
    u32_from_le_bytes, u32_to_le_bytes, u64_from_le_bytes, u64_to_le_bytes};
use vstd::slice::slice_subrange;

verus! {

/// Traffic record for one source address.
pub struct Ip {
    /// Whether the address is blacklisted; once true, never cleared.
    pub blacklisted: bool,
    /// When the address was last seen, as whole seconds of Unix time;
    /// `None` only before the first contact.
    pub last_seen: Option<i64>,
    /// Remaining trust budget. It starts at 3600 and every contact deducts
    /// the number of seconds missing from a full hour of silence since the
    /// previous contact; an hour or more of silence restores it to 3600.
    pub consumed: i32,
}

/// Mathematical value of an [`Ip`] record.
#[verifier::ext_equal]
pub struct IpView {
    pub blacklisted: bool,
    pub last_seen: Option<int>,
    pub consumed: int,
}

impl View for Ip {
    type V = IpView;

    open spec fn view(&self) -> IpView {
        IpView {
            blacklisted: self.blacklisted,
            last_seen: match self.last_seen {
                Some(t) => Some(t as int),
                None => None,
            },
            consumed: self.consumed as int,
        }
    }
}

/// A record that is not blacklisted still holds a positive budget of at
/// most one hour.
pub open spec fn wf(v: IpView) -> bool {
    !v.blacklisted ==> 0 < v.consumed <= 3600
}

/// The budget update applied on every contact observed at time `now`:
/// a blacklisted record is frozen; a first contact keeps the default
/// budget; an hour of silence restores the budget to 3600; otherwise the
/// seconds missing from a full hour are deducted, and a budget that
/// reaches zero blacklists the record permanently. The stored budget
/// saturates at the smallest machine value; only its sign ever matters
/// after blacklisting.
pub open spec fn apply_spec(v: IpView, now: int) -> IpView {
    if v.blacklisted {
        v
    } else {
        match v.last_seen {
            None => IpView { last_seen: Some(now), ..v },
            Some(t) => {
                let elapsed = now - t;
                if elapsed >= 3600 {
                    IpView { blacklisted: false, last_seen: Some(now), consumed: 3600 }
                } else {
                    let budget = v.consumed - (3600 - elapsed);
                    let stored = if budget < i32::MIN as int { i32::MIN as int } else { budget };
                    IpView { blacklisted: budget <= 0, last_seen: Some(now), consumed: stored }
                }
            },
        }
    }
}

impl Ip {
    /// A fresh record: not blacklisted, never seen, full budget.
    pub fn new() -> (r: Ip)
        ensures
            r@ == (IpView { blacklisted: false, last_seen: None, consumed: 3600 }),
    {
        Ip { blacklisted: false, last_seen: None, consumed: 3600 }
    }

    /// Records a contact observed at `received` seconds of Unix time,
    /// updating the budget and the last-seen time and blacklisting the
    /// record once the budget is exhausted, exactly as [`apply_spec`]
    /// states. A blacklisted record is left untouched.
    pub fn update(&mut self, received: i64)
        ensures
            final(self)@ == apply_spec(old(self)@, received as int),
            wf(old(self)@) ==> wf(final(self)@),
    {
        if !self.blacklisted {
            match self.last_seen {
                Some(time) => {
                    let elapsed: i128 = received as i128 - time as i128;
                    if elapsed >= 3600 {
                        self.consumed = 3600;
                    } else {
                        let budget: i128 = self.consumed as i128 - (3600 - elapsed);
                        if budget <= 0 {
                            self.blacklisted = true;
                        }
                        self.consumed = if budget < i32::MIN as i128 {
                            i32::MIN
                        } else {
                            budget as i32
                        };
                    }
                },
                None => {},
            }
            self.last_seen = Some(received);
        }
    }
}

/// Byte encoding a stored `blacklisted` flag.
pub open spec fn bool_byte(b: bool) -> u8 {
    if b {
        1u8
    } else {
        0u8
    }
}

/// Byte telling whether a stored record carries a last-seen time.
pub open spec fn tag_byte(o: Option<int>) -> u8 {
    if o is Some {
        1u8
    } else {
        0u8
    }
}

/// The stored machine word of a last-seen time: the time shifted out of
/// the signed range, or zero when there is none.
pub open spec fn ts_word(o: Option<int>) -> u64 {
    match o {
        Some(t) => (t + 0x8000_0000_0000_0000) as u64,
        None => 0u64,
    }
}

/// The stored machine word of a budget: the budget shifted out of the
/// signed range.
pub open spec fn budget_word(c: int) -> u32 {
    (c + 0x8000_0000) as u32
}

/// The crate's internal storage format for a record: one flag byte, one
/// presence byte, the last-seen word little-endian, the budget word
/// little-endian; fourteen bytes in all.
pub open spec fn spec_encode(v: IpView) -> Seq<u8> {
    seq![bool_byte(v.blacklisted), tag_byte(v.last_seen)]
        + spec_u64_to_le_bytes(ts_word(v.last_seen))
        + spec_u32_to_le_bytes(budget_word(v.consumed))
}

/// Reads the storage format back; anything the encoder cannot produce
/// decodes to `None`.
pub open spec fn spec_decode(s: Seq<u8>) -> Option<IpView> {
    if s.len() == 14 && (s[0] == 0 || s[0] == 1) && (s[1] == 0 || s[1] == 1) {
        let ts = spec_u64_from_le_bytes(s.subrange(2, 10));
        let bd = spec_u32_from_le_bytes(s.subrange(10, 14));
        Some(IpView {
            blacklisted: s[0] == 1,
            last_seen: if s[1] == 1 {
                Some(ts as int - 0x8000_0000_0000_0000)
            } else {
                None
            },
            consumed: bd as int - 0x8000_0000,
        })
    } else {
        None
    }
}

/// The views whose fields fit the machine types of [`Ip`]; every view of
/// an actual record is such a view.
pub open spec fn in_range(v: IpView) -> bool {
    &&& i32::MIN as int <= v.consumed <= i32::MAX as int
    &&& (v.last_seen matches Some(t) ==> i64::MIN as int <= t <= i64::MAX as int)
}

/// The storage format round-trips exactly: decoding an encoded record
/// gives the record back, for every record whose fields fit the machine
/// types.
pub proof fn lemma_round_trip(v: IpView)
    requires
        in_range(v),
    ensures
        spec_decode(spec_encode(v)) == Some(v),
{
    lemma_auto_spec_u64_to_from_le_bytes();
    lemma_auto_spec_u32_to_from_le_bytes();
    let e = spec_encode(v);
    assert(e.subrange(2, 10) =~= spec_u64_to_le_bytes(ts_word(v.last_seen)));
    assert(e.subrange(10, 14) =~= spec_u32_to_le_bytes(budget_word(v.consumed)));
    assert(spec_decode(e) == Some(v));
}

impl Ip {
    /// Serializes the record into the crate's internal storage format.
    pub fn to_bytes(&self) -> (r: Vec<u8>)
        ensures
            r@ == spec_encode(self@),
            spec_decode(r@) == Some(self@),
    {
        let mut out: Vec<u8> = Vec::new();
        out.push(if self.blacklisted { 1 } else { 0 });
        match self.last_seen {
            Some(t) => {
                out.push(1);
                let mut tsb = u64_to_le_bytes(((t as i128) + 0x8000_0000_0000_0000) as u64);
                out.append(&mut tsb);
            },
            None => {
                out.push(0);
                let mut tsb = u64_to_le_bytes(0);
                out.append(&mut tsb);
            },
        }
        let mut bdb = u32_to_le_bytes(((self.consumed as i64) + 0x8000_0000) as u32);
        out.append(&mut bdb);
        proof {
            lemma_auto_spec_u64_to_from_le_bytes();
            lemma_auto_spec_u32_to_from_le_bytes();
            assert(out@ =~= spec_encode(self@));
            lemma_round_trip(self@);
        }
        out
    }

    /// Parses the internal storage format; returns `None` on any byte
    /// sequence the encoder cannot produce.
    pub fn from_bytes(buf: &Vec<u8>) -> (r: Option<Ip>)
        ensures
            match r {
                Some(ip) => spec_decode(buf@) == Some(ip@),
                None => spec_decode(buf@) is None,
            },
    {
        if buf.len() != 14 {
            return None;
        }
        let b0 = buf[0];
        let b1 = buf[1];
        if b0 > 1 || b1 > 1 {
            return None;
        }
        let ts = u64_from_le_bytes(slice_subrange(buf.as_slice(), 2, 10));
        let bd = u32_from_le_bytes(slice_subrange(buf.as_slice(), 10, 14));
        let last_seen: Option<i64> = if b1 == 1 {
            Some(((ts as i128) - 0x8000_0000_0000_0000) as i64)
        } else {
            None
        };
        let consumed: i32 = ((bd as i64) - 0x8000_0000) as i32;
        Some(Ip { blacklisted: b0 == 1, last_seen, consumed })
    }

    /// The record read back from stored bytes — or a fresh record when
    /// the bytes are not a stored record, as on a first contact — updated
    /// for a contact observed at `received`.
    pub fn from_store(buf: &Vec<u8>, received: i64) -> (r: Ip)
        ensures
            r@ == apply_spec(
                match spec_decode(buf@) {
                    Some(v) => v,
                    None => IpView { blacklisted: false, last_seen: None, consumed: 3600 },
                },
                received as int,
            ),
    {
        let mut ip = match Ip::from_bytes(buf) {
            Some(ip) => ip,
            None => Ip::new(),
        };
        ip.update(received);
        ip
    }
}

/// An hour or more of silence fully restores the budget, whatever its
/// prior value: after such a contact the record holds the default budget
/// again and is not blacklisted.
pub proof fn lemma_full_reset(v: IpView, now: int)
    requires
        !v.blacklisted,
        v.last_seen matches Some(t) && now - t >= 3600,
    ensures
        apply_spec(v, now) == (IpView { blacklisted: false, last_seen: Some(now), consumed: 3600 }),
{
}

/// Blacklisting is permanent: applying any further contact to a
/// blacklisted record changes neither its budget nor its last-seen time,
/// and the record stays blacklisted.
pub proof fn lemma_blacklist_permanent(v: IpView, now: int)
    requires
        v.blacklisted,
    ensures
        apply_spec(v, now) == v,
        apply_spec(v, now).blacklisted,
{
}

/// The budget update preserves well-formedness of records.
pub proof fn lemma_apply_preserves_wf(v: IpView, now: int)
    requires
        wf(v),
    ensures
        wf(apply_spec(v, now)),
{
}

} // verus!


//! Owned variants of the channel- and circuit-target descriptions. The
//! transport library's address and key types are modeled as plain
//! values: an address as a canonical dotted-quad host and a port, an
//! identity key as its fixed-width bytes.

use vstd::prelude::*;

use crate::ds_load::host_canonical;
use crate::ds_load::host_is_canonical;
use crate::error::Error;
use crate::error::ErrorKind;
use crate::text::dec_val;
use crate::text::is_dec;
use crate::text::parse_dec_bounded;
use crate::text::split_chars;
use crate::text::split_str;

verus! {

/// A transport address: a dotted-quad IPv4 host and a port.
#[derive(Debug, PartialEq)]
pub struct SockAddr {
    pub host: String,
    pub port: u16,
}

impl Clone for SockAddr {
    fn clone(&self) -> (r: Self)
        ensures
            r == *self,
    {
        SockAddr { host: self.host.clone(), port: self.port }
    }
}

/// An address string the parser accepts: a canonical dotted quad, one
/// colon, and a decimal port that fits sixteen bits.
pub open spec fn sock_addr_ok(s: Seq<char>) -> bool {
    let parts = split_chars(s, ':');
    &&& parts.len() == 2
    &&& host_canonical(parts[0])
    &&& is_dec(parts[1])
    &&& dec_val(parts[1]) <= 65535
}

/// Parse an `address:port` string into an address value; everything
/// else is rejected as an address-parse error.
pub fn parse_sock_addr(s: &str) -> (r: Result<SockAddr, Error>)
    ensures
        r is Ok <==> sock_addr_ok(s@),
        r matches Ok(a) ==> a.host@ == split_chars(s@, ':')[0] && host_canonical(a.host@)
            && a.port as int == dec_val(split_chars(s@, ':')[1]),
        r matches Err(e) ==> (e.kind matches ErrorKind::AddrParseError(m) && m@
            == "invalid socket address"@),
{
    let parts = split_str(s, ':');
    proof {
        assert(parts@.len() == parts.deep_view().len());
        assert(forall|i: int|
            0 <= i < parts@.len() ==> #[trigger] parts@[i]@ == parts.deep_view()[i]);
    }
    if parts.len() != 2 {
        return Err(Error { kind: ErrorKind::AddrParseError("invalid socket address".to_owned()) });
    }
    if !host_is_canonical(parts[0].as_str()) {
        return Err(Error { kind: ErrorKind::AddrParseError("invalid socket address".to_owned()) });
    }
    let port = match parse_dec_bounded(parts[1].as_str(), 65535) {
        Some(v) => v as u16,
        None => {
            return Err(
                Error { kind: ErrorKind::AddrParseError("invalid socket address".to_owned()) },
            );
        },
    };
    let host = parts[0].clone();
    Ok(SockAddr { host, port })
}

/// An ed25519 identity key's bytes.
#[derive(Debug, PartialEq)]
pub struct Ed25519Identity {
    pub id: Vec<u8>,
}

impl Ed25519Identity {
    /// The key is exactly 32 bytes wide.
    pub open spec fn wf(&self) -> bool {
        self.id@.len() == 32
    }

    pub fn new(id: Vec<u8>) -> (r: Self)
        requires
            id@.len() == 32,
        ensures
            r.id == id,
            r.wf(),
    {
        Ed25519Identity { id }
    }
}

impl Clone for Ed25519Identity {
    fn clone(&self) -> (r: Self)
        ensures
            r.id@ == self.id@,
    {
        let r = Ed25519Identity { id: self.id.clone() };
        proof {
            assert(r.id@ =~= self.id@);
        }
        r
    }
}

/// An RSA identity fingerprint's bytes.
#[derive(Debug, PartialEq)]
pub struct RsaIdentity {
    pub id: Vec<u8>,
}

impl RsaIdentity {
    /// The fingerprint is exactly 20 bytes wide.
    pub open spec fn wf(&self) -> bool {
        self.id@.len() == 20
    }

    pub fn new(id: Vec<u8>) -> (r: Self)
        requires
            id@.len() == 20,
        ensures
            r.id == id,
            r.wf(),
    {
        RsaIdentity { id }
    }
}

impl Clone for RsaIdentity {
    fn clone(&self) -> (r: Self)
        ensures
            r.id@ == self.id@,
    {
        let r = RsaIdentity { id: self.id.clone() };
        proof {
            assert(r.id@ =~= self.id@);
        }
        r
    }
}

/// A curve25519 public key's bytes.
#[derive(Debug, PartialEq)]
pub struct Curve25519Public {
    pub id: Vec<u8>,
}

impl Clone for Curve25519Public {
    fn clone(&self) -> (r: Self)
        ensures
            r.id@ == self.id@,
    {
        let r = Curve25519Public { id: self.id.clone() };
        proof {
            assert(r.id@ =~= self.id@);
        }
        r
    }
}

/// The subprotocol versions a target supports, as their names.
#[derive(Debug, PartialEq)]
pub struct Protocols {
    pub entries: Vec<String>,
}

impl Clone for Protocols {
    fn clone(&self) -> (r: Self)
        ensures
            r.entries.deep_view() == self.entries.deep_view(),
    {
        let r = Protocols { entries: self.entries.clone() };
        proof {
            assert forall|i: int|
                0 <= i < r.entries@.len() implies r.entries@[i]@ == self.entries@[i]@ by {
                assert(vstd::pervasive::cloned::<String>(self.entries@[i], r.entries@[i]));
            }
            assert(r.entries.deep_view() =~~= self.entries.deep_view());
        }
        r
    }
}

/// Information about a target at the channel level.
pub trait ChanTarget {
    /// The addresses the target can be reached at.
    spec fn spec_addrs(&self) -> Seq<SockAddr>;

    /// The ed25519 identity of the target, if known.
    spec fn spec_ed_identity(&self) -> Option<Ed25519Identity>;

    /// The RSA identity of the target, if known.
    spec fn spec_rsa_identity(&self) -> Option<RsaIdentity>;

    fn addrs(&self) -> (r: &Vec<SockAddr>)
        ensures
            r@ == self.spec_addrs(),
    ;

    fn ed_identity(&self) -> (r: &Option<Ed25519Identity>)
        ensures
            *r == self.spec_ed_identity(),
    ;

    fn rsa_identity(&self) -> (r: &Option<RsaIdentity>)
        ensures
            *r == self.spec_rsa_identity(),
    ;

    fn set_ed_identity(&mut self, ed: Ed25519Identity)
        ensures
            final(self).spec_ed_identity() == Some(ed),
            final(self).spec_rsa_identity() == old(self).spec_rsa_identity(),
            final(self).spec_addrs() == old(self).spec_addrs(),
    ;

    fn set_rsa_identity(&mut self, rsa: RsaIdentity)
        ensures
            final(self).spec_rsa_identity() == Some(rsa),
            final(self).spec_ed_identity() == old(self).spec_ed_identity(),
            final(self).spec_addrs() == old(self).spec_addrs(),
    ;
}

/// OwnedChanTarget is a summary of a channel target that owns all of
/// its members.
#[derive(Debug)]
pub struct OwnedChanTarget {
    /// Copy of the addresses from the underlying target.
    pub addrs: Vec<SockAddr>,
    /// Copy of the ed25519 id from the underlying target.
    pub ed_identity: Option<Ed25519Identity>,
    /// Copy of the rsa id from the underlying target.
    pub rsa_identity: Option<RsaIdentity>,
}

impl ChanTarget for OwnedChanTarget {
    open spec fn spec_addrs(&self) -> Seq<SockAddr> {
        self.addrs@
    }

    open spec fn spec_ed_identity(&self) -> Option<Ed25519Identity> {
        self.ed_identity
    }

    open spec fn spec_rsa_identity(&self) -> Option<RsaIdentity> {
        self.rsa_identity
    }

    fn addrs(&self) -> (r: &Vec<SockAddr>) {
        &self.addrs
    }

    fn ed_identity(&self) -> (r: &Option<Ed25519Identity>) {
        &self.ed_identity
    }

    fn rsa_identity(&self) -> (r: &Option<RsaIdentity>) {
        &self.rsa_identity
    }

    fn set_ed_identity(&mut self, ed: Ed25519Identity) {
        self.ed_identity = Some(ed);
    }

    fn set_rsa_identity(&mut self, rsa: RsaIdentity) {
        self.rsa_identity = Some(rsa);
    }
}

impl OwnedChanTarget {
    /// Construct a new OwnedChanTarget from its parts.
    pub fn new(
        addrs: Vec<SockAddr>,
        ed_identity: Option<Ed25519Identity>,
        rsa_identity: Option<RsaIdentity>,
    ) -> (r: Self)
        ensures
            r.addrs == addrs,
            r.ed_identity == ed_identity,
            r.rsa_identity == rsa_identity,
    {
        OwnedChanTarget { addrs, ed_identity, rsa_identity }
    }

    /// Construct an OwnedChanTarget from a given ChanTarget.
    pub fn from_chan_target<C: ChanTarget>(target: &C) -> (r: Self)
        ensures
            r.addrs@.len() == target.spec_addrs().len(),
            forall|i: int|
                0 <= i < r.addrs@.len() ==> vstd::pervasive::cloned::<SockAddr>(
                    target.spec_addrs()[i],
                    #[trigger] r.addrs@[i],
                ),
            r.ed_identity is Some <==> target.spec_ed_identity() is Some,
            r.ed_identity matches Some(x) ==> (target.spec_ed_identity() matches Some(w) && x.id@
                == w.id@),
            r.rsa_identity is Some <==> target.spec_rsa_identity() is Some,
            r.rsa_identity matches Some(x) ==> (target.spec_rsa_identity() matches Some(w) && x.id@
                == w.id@),
    {
        OwnedChanTarget {
            addrs: target.addrs().clone(),
            ed_identity: clone_opt_ed(target.ed_identity()),
            rsa_identity: clone_opt_rsa(target.rsa_identity()),
        }
    }
}

/// Clone an optional ed25519 identity, keeping its value.
fn clone_opt_ed(v: &Option<Ed25519Identity>) -> (r: Option<Ed25519Identity>)
    ensures
        r is Some <==> v is Some,
        r matches Some(x) ==> (v matches Some(w) && x.id@ == w.id@),
{
    match v {
        Some(x) => Some(x.clone()),
        None => None,
    }
}

/// Clone an optional RSA identity, keeping its value.
fn clone_opt_rsa(v: &Option<RsaIdentity>) -> (r: Option<RsaIdentity>)
    ensures
        r is Some <==> v is Some,
        r matches Some(x) ==> (v matches Some(w) && x.id@ == w.id@),
{
    match v {
        Some(x) => Some(x.clone()),
        None => None,
    }
}

/// Information about a target at the circuit level.
pub trait CircTarget: ChanTarget {
    /// The ntor onion key to use when extending to this target.
    spec fn spec_ntor_onion_key(&self) -> Curve25519Public;

    /// The subprotocol versions this target supports.
    spec fn spec_protovers(&self) -> Protocols;

    fn ntor_onion_key(&self) -> (r: &Curve25519Public)
        ensures
            *r == self.spec_ntor_onion_key(),
    ;

    fn protovers(&self) -> (r: &Protocols)
        ensures
            *r == self.spec_protovers(),
    ;
}

/// OwnedCircTarget is a summary of a circuit target that owns all its
/// members.
#[derive(Debug)]
pub struct OwnedCircTarget {
    /// The fields from this object when considered as a channel target.
    pub chan_target: OwnedChanTarget,
    /// The ntor key to use when extending to this target.
    pub ntor_onion_key: Curve25519Public,
    /// The subprotocol versions that this target supports.
    pub protovers: Protocols,
}

impl OwnedCircTarget {
    /// Construct an OwnedCircTarget from a given CircTarget.
    pub fn from_circ_target<C: CircTarget>(target: &C) -> (r: Self)
        ensures
            r.chan_target.addrs@.len() == target.spec_addrs().len(),
            r.chan_target.ed_identity is Some <==> target.spec_ed_identity() is Some,
            r.chan_target.rsa_identity is Some <==> target.spec_rsa_identity() is Some,
            r.ntor_onion_key.id@ == target.spec_ntor_onion_key().id@,
            r.protovers.entries.deep_view() == target.spec_protovers().entries.deep_view(),
    {
        OwnedCircTarget {
            chan_target: OwnedChanTarget::from_chan_target(target),
            ntor_onion_key: target.ntor_onion_key().clone(),
            protovers: target.protovers().clone(),
        }
    }
}

impl ChanTarget for OwnedCircTarget {
    open spec fn spec_addrs(&self) -> Seq<SockAddr> {
        self.chan_target.addrs@
    }

    open spec fn spec_ed_identity(&self) -> Option<Ed25519Identity> {
        self.chan_target.ed_identity
    }

    open spec fn spec_rsa_identity(&self) -> Option<RsaIdentity> {
        self.chan_target.rsa_identity
    }

    fn addrs(&self) -> (r: &Vec<SockAddr>) {
        &self.chan_target.addrs
    }

    fn ed_identity(&self) -> (r: &Option<Ed25519Identity>) {
        &self.chan_target.ed_identity
    }

    fn rsa_identity(&self) -> (r: &Option<RsaIdentity>) {
        &self.chan_target.rsa_identity
    }

    fn set_ed_identity(&mut self, ed: Ed25519Identity) {
        self.chan_target.ed_identity = Some(ed);
    }

    fn set_rsa_identity(&mut self, rsa: RsaIdentity) {
        self.chan_target.rsa_identity = Some(rsa);
    }
}

impl CircTarget for OwnedCircTarget {
    open spec fn spec_ntor_onion_key(&self) -> Curve25519Public {
        self.ntor_onion_key
    }

    open spec fn spec_protovers(&self) -> Protocols {
        self.protovers
    }

    fn ntor_onion_key(&self) -> (r: &Curve25519Public) {
        &self.ntor_onion_key
    }

    fn protovers(&self) -> (r: &Protocols) {
        &self.protovers
    }
}

} // verus!

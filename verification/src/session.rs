//! One controller and one editor per checkout: the private registry directory of a
//! checkout, the address a controller publishes, and the check of a running controller.
use vstd::prelude::*;
use vstd::wrapping::u64_specs::wrapping_mul;
use crate::protocol::Response;
use crate::workspace::{join_path, joined};
use crate::text::{string_from, concat, digit_char, digit_of, decimal, decimal_text};
use vstd::utf8::encode_utf8;
use crate::error::Refusal;
use crate::paths::{path_eq, same_path};

verus! {

/// FNV-1a's offset basis.
pub const FNV_OFFSET: u64 = 0xcbf29ce484222325;

/// FNV-1a's prime.
pub const FNV_PRIME: u64 = 0x100000001b3;

/// The 64-bit FNV-1a hash of `bytes`.
pub open spec fn fnv(bytes: Seq<u8>) -> u64
    decreases bytes.len(),
{
    if bytes.len() == 0 {
        FNV_OFFSET
    } else {
        wrapping_mul(fnv(bytes.drop_last()) ^ (bytes.last() as u64), FNV_PRIME)
    }
}

/// The FNV-1a hash of `bytes`: a stable address of a checkout, not a secret.
pub fn checkout_key(bytes: &[u8]) -> (r: u64)
    ensures
        r == fnv(bytes@),
{
    let mut h: u64 = FNV_OFFSET;
    let mut i: usize = 0;
    while i < bytes.len()
        invariant
            i <= bytes@.len(),
            h == fnv(bytes@.take(i as int)),
        decreases bytes.len() - i,
    {
        assert(bytes@.take(i + 1).drop_last() =~= bytes@.take(i as int));
        assert(bytes@.take(i + 1).last() == bytes@[i as int]);
        h = (h ^ (bytes[i] as u64)).wrapping_mul(FNV_PRIME);
        i = i + 1;
    }
    assert(bytes@.take(i as int) =~= bytes@);
    h
}

/// The lowercase hexadecimal digit for `d`.
pub open spec fn hex_char(d: int) -> char {
    if d < 10 {
        digit_char(d)
    } else if d == 10 { 'a' } else if d == 11 { 'b' } else if d == 12 { 'c' } else if d == 13 { 'd' } else if d == 14 { 'e' } else { 'f' }
}

/// The last `n` hexadecimal digits of `k`, zero-padded, as `format!("{k:0nx}")` writes a
/// number below `16^n`.
pub open spec fn hex_digits(k: nat, n: nat) -> Seq<char>
    decreases n,
{
    if n == 0 {
        Seq::empty()
    } else {
        hex_digits(k / 16, (n - 1) as nat).push(hex_char((k % 16) as int))
    }
}

fn hex_digit(d: u64) -> (c: char)
    requires
        d < 16,
    ensures
        c == hex_char(d as int),
{
    if d < 10 {
        digit_of(d as usize)
    } else if d == 10 { 'a' } else if d == 11 { 'b' } else if d == 12 { 'c' } else if d == 13 { 'd' } else if d == 14 { 'e' } else { 'f' }
}

fn hex_chars(k: u64, n: usize) -> (v: Vec<char>)
    ensures
        v@ == hex_digits(k as nat, n as nat),
    decreases n,
{
    if n == 0 {
        Vec::new()
    } else {
        let mut v = hex_chars(k / 16, n - 1);
        v.push(hex_digit(k % 16));
        v
    }
}

/// The name of the registry directory of a checkout with key `key`.
pub open spec fn checkout_name(key: u64) -> Seq<char> {
    "checkout-"@ + hex_digits(key as nat, 16)
}

/// The registry directory of one checkout, and its canonical path.
#[derive(Debug)]
pub struct Registry {
    pub project: String,
    directory: String,
}

/// Where a controller listens, for the checkout it serves.
#[derive(Clone, Debug)]
pub struct Address {
    pub project: String,
    pub socket: String,
}

impl Registry {
    /// The registry directory.
    pub closed spec fn dir(&self) -> Seq<char> {
        self.directory@
    }

    /// The checkout's canonical path.
    pub closed spec fn checkout(&self) -> Seq<char> {
        self.project@
    }

    /// The registry of the checkout at canonical path `project`, under the runtime
    /// directory `root`: a directory named by the FNV-1a hash of the path's bytes.
    pub fn new(root: &String, project: String) -> (r: Registry)
        ensures
            r.checkout() == project@,
            r.dir() == joined(root@, checkout_name(fnv(encode_utf8(project@)))),
    {
        let key = checkout_key(project.as_str().as_bytes());
        let name = concat("checkout-", string_from(&hex_chars(key, 16)).as_str());
        let directory = join_path(root, &name);
        Registry { project, directory }
    }

    /// The registry directory.
    pub fn directory(&self) -> (r: String)
        ensures
            r@ == self.dir(),
    {
        self.directory.clone()
    }

    /// A file of the registry directory.
    pub fn path(&self, name: &str) -> (r: String)
        ensures
            r@ == joined(self.dir(), name@),
    {
        join_path(&self.directory, &name.to_owned())
    }

    /// What a controller listening at `socket` publishes, and the registry file it goes to.
    pub fn publish(&self, socket: &String) -> (r: (String, Address))
        ensures
            r.0@ == joined(self.dir(), "active.json"@),
            r.1.project@ == self.checkout(),
            r.1.socket@ == socket@,
    {
        (self.path("active.json"), Address { project: self.project.clone(), socket: socket.clone() })
    }

    /// Accepts the controller that `address` names, given its answer to a status request:
    /// its address names this checkout (as the same path), it answered without error, and it
    /// shows this checkout's view.
    pub fn accept(&self, address: &Address, reply: &Response) -> (r: Result<String, Refusal>)
        ensures
            r is Ok <==> path_eq(address.project@, self.checkout()) && reply.error is None
                && (reply.view matches Some(v) && v.real@ == self.checkout()),
            r matches Ok(s) ==> s@ == address.socket@,
            !path_eq(address.project@, self.checkout()) ==> r matches Err(Refusal::ForeignController),
            path_eq(address.project@, self.checkout()) && reply.error is Some ==> r matches Err(Refusal::ControllerRejected),
            path_eq(address.project@, self.checkout()) && reply.error is None && reply.view is None ==> r matches Err(Refusal::ControllerWithoutState),
            path_eq(address.project@, self.checkout()) && reply.error is None && (reply.view matches Some(v) && v.real@ != self.checkout())
                ==> r matches Err(Refusal::ForeignController),
    {
        if !same_path(address.project.as_str(), self.project.as_str()) {
            return Err(Refusal::ForeignController);
        }
        if reply.error.is_some() {
            return Err(Refusal::ControllerRejected);
        }
        match &reply.view {
            None => Err(Refusal::ControllerWithoutState),
            Some(v) => if v.real == self.project {
                Ok(address.socket.clone())
            } else {
                Err(Refusal::ForeignController)
            },
        }
    }
}

/// The runtime directory that holds every checkout's registry: `TANDEM_RUNTIME_DIR` if set,
/// else `tandem` under `XDG_RUNTIME_DIR`, else `tandem-UID` under the temporary directory.
pub open spec fn runtime_root(tandem: Option<Seq<char>>, xdg: Option<Seq<char>>, temp: Seq<char>, uid: u32) -> Seq<char> {
    match tandem {
        Some(t) => t,
        None => match xdg {
            Some(x) => joined(x, "tandem"@),
            None => joined(temp, "tandem-"@ + decimal_text(uid as nat)),
        },
    }
}

/// The runtime directory that holds every checkout's registry.
pub fn runtime_directory(tandem: Option<String>, xdg: Option<String>, temp: &String, uid: u32) -> (r: String)
    ensures
        r@ == runtime_root(match tandem {
            Some(t) => Some(t@),
            None => None,
        }, match xdg {
            Some(x) => Some(x@),
            None => None,
        }, temp@, uid),
{
    match tandem {
        Some(t) => t,
        None => match xdg {
            Some(x) => join_path(&x, &"tandem".to_owned()),
            None => join_path(temp, &concat("tandem-", decimal(uid as usize).as_str())),
        },
    }
}

} // verus!

use vstd::prelude::*;
use vstd::string::StringExecFns;
use crate::signing::{ed25519_accepts, ed25519_check};
use crate::text::{decimal, format_u64};

verus! {

/// A release version.
#[derive(Clone, Copy, Debug, PartialEq, Eq, Structural)]
pub struct Version {
    pub major: u16,
    pub minor: u16,
    pub patch: u16,
}

/// A processor architecture of a release.
#[derive(Clone, Copy, Debug, PartialEq, Eq, Structural)]
pub enum Arch {
    X86_64,
    AArch64,
}

/// An operating system of a release.
#[derive(Clone, Copy, Debug, PartialEq, Eq, Structural)]
pub enum System {
    Linux,
}

/// The platform a release is built for.
#[derive(Clone, Copy, Debug, PartialEq, Eq, Structural)]
pub struct Target {
    pub arch: Arch,
    pub system: System,
}

/// A signed release.
#[derive(Clone, Debug)]
pub struct Artifact {
    pub name: String,
    pub version: Version,
    pub target: Target,
    pub signature: Vec<u8>,
    pub timestamp: u64,
}

/// What the notary is asked for: the latest release of a program for a
/// platform, newer than a version.
#[derive(Clone, Debug)]
pub struct Query {
    pub name: String,
    pub version: String,
    pub arch: String,
    pub system: String,
    pub release: bool,
}

/// A release and where to download it.
#[derive(Clone, Debug)]
pub struct Item {
    pub artifact: Artifact,
    pub location: String,
}

/// The notary's answer to a request that failed.
#[derive(Clone, Debug)]
pub struct Failure {
    pub error: String,
}

/// The notary's answer.
#[derive(Clone, Debug)]
pub enum Response<T> {
    Success(T),
    Failure(Failure),
}

/// Errors of the notary client.
#[derive(Clone, Debug)]
pub enum Error {
    Application(String),
    Status(u16, String),
    Transport(String),
    InvalidSignature,
}

/// `major.minor.patch`.
pub open spec fn version_text(v: Version) -> Seq<char> {
    decimal(v.major as nat) + seq!['.'] + decimal(v.minor as nat) + seq!['.'] + decimal(v.patch as nat)
}

pub open spec fn arch_text(a: Arch) -> Seq<char> {
    match a {
        Arch::X86_64 => seq!['x', '8', '6', '_', '6', '4'],
        Arch::AArch64 => seq!['a', 'a', 'r', 'c', 'h', '6', '4'],
    }
}

pub open spec fn system_text(s: System) -> Seq<char> {
    match s {
        System::Linux => seq!['l', 'i', 'n', 'u', 'x'],
    }
}

/// `arch/system`.
pub open spec fn target_text(t: Target) -> Seq<char> {
    arch_text(t.arch) + seq!['/'] + system_text(t.system)
}

fn dot(s: &mut String)
    ensures
        final(s)@ == old(s)@.push('.'),
{
    proof {
        reveal_strlit(".");
    }
    s.append(".");
}

impl Version {
    /// The text of the version.
    pub fn to_string(&self) -> (r: String)
        ensures
            r@ == version_text(*self),
    {
        let mut s = format_u64(self.major as u64);
        dot(&mut s);
        let minor = format_u64(self.minor as u64);
        s.append(minor.as_str());
        dot(&mut s);
        let patch = format_u64(self.patch as u64);
        s.append(patch.as_str());
        s
    }
}

impl Arch {
    /// The name of the architecture.
    pub fn to_string(&self) -> (r: String)
        ensures
            r@ == arch_text(*self),
    {
        match self {
            Arch::X86_64 => {
                proof {
                    reveal_strlit("x86_64");
                }
                String::from_str("x86_64")
            },
            Arch::AArch64 => {
                proof {
                    reveal_strlit("aarch64");
                }
                String::from_str("aarch64")
            },
        }
    }
}

impl System {
    /// The name of the system.
    pub fn to_string(&self) -> (r: String)
        ensures
            r@ == system_text(*self),
    {
        match self {
            System::Linux => {
                proof {
                    reveal_strlit("linux");
                }
                String::from_str("linux")
            },
        }
    }
}

impl Target {
    /// The text of the platform.
    pub fn to_string(&self) -> (r: String)
        ensures
            r@ == target_text(*self),
    {
        let mut s = self.arch.to_string();
        proof {
            reveal_strlit("/");
        }
        s.append("/");
        let system = self.system.to_string();
        s.append(system.as_str());
        s
    }
}

impl<T> Response<T> {
    /// The value of a successful answer, or the error a failed one carries.
    pub fn into_result(self) -> (r: Result<T, Error>)
        ensures
            match self {
                Response::Success(v) => r == Ok::<T, Error>(v),
                Response::Failure(f) => r == Err::<T, Error>(Error::Application(f.error)),
            },
    {
        match self {
            Response::Success(v) => Ok(v),
            Response::Failure(f) => Err(Error::Application(f.error)),
        }
    }
}

/// The name of the file an update is downloaded to: `name-update-version`.
pub fn update_file_name(name: &str, version: &Version) -> (r: String)
    ensures
        r@ == name@ + "-update-"@ + version_text(*version),
{
    let mut s = String::from_str(name);
    s.append("-update-");
    let v = version.to_string();
    s.append(v.as_str());
    s
}

/// The bytes that zstd's streaming decoder writes out when handed all of
/// `data` and flushed, or `None` when the decoder reports an error.
pub uninterp spec fn zstd_decompressed(data: Seq<u8>) -> Option<Seq<u8>>;

/// Decompresses with `zstd::stream::write::Decoder` over a `Vec`: writes
/// all of `data`, flushes, and takes the buffer. Claimed: on success the
/// bytes are `zstd_decompressed` of the input, and it fails exactly when
/// that is `None`; the error's text is not stated. (A stream cut short
/// is not an error here: the decoder writes what it could decode.)
#[verifier::external_body]
fn decompress(data: &[u8]) -> (r: Result<Vec<u8>, String>)
    ensures
        match zstd_decompressed(data@) {
            Some(d) => r matches Ok(v) && v@ == d,
            None => r is Err,
        },
{
    let mut dec = match zstd::stream::write::Decoder::new(Vec::new()) {
        Ok(d) => d,
        Err(e) => return Err(e.to_string()),
    };
    if let Err(e) = std::io::Write::write_all(&mut dec, data) {
        return Err(e.to_string());
    }
    match std::io::Write::flush(&mut dec) {
        Ok(()) => Ok(dec.into_inner()),
        Err(e) => Err(e.to_string()),
    }
}

/// The SHA-512 digest of the bytes.
pub uninterp spec fn sha512(data: Seq<u8>) -> Seq<u8>;

/// Hashes with `hmac_sha512::Hash::hash`. Claimed: the digest is `sha512`
/// of the input.
#[verifier::external_body]
fn sha512_digest(data: &[u8]) -> (r: [u8; 64])
    ensures
        r@ == sha512(data@),
{
    hmac_sha512::Hash::hash(data)
}

/// Checks a downloaded release: a signature that is not 64 bytes long is
/// refused first; then the zstd stream is decompressed, its content hashed
/// with SHA-512 and the artifact's signature of the hash verified under the
/// notary's public key. Returns the content of a release that verifies; a
/// stream that does not decompress is a transport error.
pub fn verify_release(public: &[u8; 32], body: &[u8], signature: &[u8]) -> (r: Result<Vec<u8>, Error>)
    ensures
        signature@.len() != 64 ==> r matches Err(Error::InvalidSignature),
        signature@.len() == 64 ==> match zstd_decompressed(body@) {
            None => r matches Err(Error::Transport(_)),
            Some(content) => {
                &&& ed25519_accepts(public@, sha512(content), signature@) ==> (r matches Ok(v) && v@ == content)
                &&& !ed25519_accepts(public@, sha512(content), signature@) ==> (r is Err && !(r matches Err(
                    Error::Transport(_),
                )))
            },
        },
{
    if signature.len() != 64 {
        return Err(Error::InvalidSignature);
    }
    let content = match decompress(body) {
        Ok(c) => c,
        Err(e) => return Err(Error::Transport(e)),
    };
    let hash = sha512_digest(content.as_slice());
    match ed25519_check(public, &hash, signature) {
        Ok(()) => Ok(content),
        Err(None) => Err(Error::InvalidSignature),
        Err(Some(text)) => Err(Error::Application(text)),
    }
}

} // verus!

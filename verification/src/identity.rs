//! Who a peer is: its secret key, the peer id that others see, and addresses of other peers.
use vstd::prelude::*;

verus! {

/// The directory below the user's configuration directory that holds the key.
pub const CONFIG_DIR_NAME: &'static str = "bsync";

/// The file that holds the key.
pub const KEY_FILE_NAME: &'static str = "identity.key";

/// Unix permissions of the configuration directory.
pub const CONFIG_DIR_MODE: u32 = 0o700;

/// Unix permissions of the key file.
pub const KEY_FILE_MODE: u32 = 0o600;

/// A secret key with the peer id that belongs to it.
pub struct Identity {
    pub key: [u8; 32],
    pub peer_id: String,
}

/// The mathematical content of an identity.
pub struct IdentityView {
    pub key: Seq<u8>,
    pub peer_id: Seq<char>,
}

/// A key file that does not hold a key.
#[derive(Clone, Copy, Debug, PartialEq, Eq, Structural)]
pub enum IdentityError {
    Corrupt,
}

/// A text that is not the address of an endpoint.
#[derive(Clone, Copy, Debug, PartialEq, Eq, Structural)]
pub enum AddrError {
    Invalid,
}

impl View for Identity {
    type V = IdentityView;

    open spec fn view(&self) -> IdentityView {
        IdentityView { key: self.key@, peer_id: self.peer_id@ }
    }
}

// ---------------------------------------------------------------------------------------------
// Keys
// ---------------------------------------------------------------------------------------------

/// The error of `iroh_base` on a text that is no key.
#[verifier::external_type_specification]
#[verifier::external_body]
pub struct ExKeyParsingError(iroh_base::KeyParsingError);

/// The text of the endpoint id that belongs to a secret key.
pub uninterp spec fn peer_id_text(key: Seq<u8>) -> Seq<char>;

/// The bytes of the endpoint id that a text stands for, if it is one.
pub uninterp spec fn endpoint_key(text: Seq<char>) -> Option<Seq<u8>>;

/// `iroh_base::SecretKey::from_bytes`, then the text of its public key, which is an endpoint id:
/// parsing it as one succeeds.
#[verifier::external_body]
fn peer_id_of(key: &[u8; 32]) -> (peer_id: String)
    ensures
        peer_id@ == peer_id_text(key@),
        endpoint_key(peer_id@) is Some,
{
    iroh_base::SecretKey::from_bytes(key).public().to_string()
}

/// `str::parse` to an `iroh_base::EndpointId`, as its 32 bytes.
#[verifier::external_body]
fn parse_endpoint(text: &str) -> (key: Result<[u8; 32], iroh_base::KeyParsingError>)
    ensures
        match key {
            Ok(bytes) => endpoint_key(text@) == Some(bytes@),
            Err(_) => endpoint_key(text@) is None,
        },
{
    text.parse::<iroh_base::EndpointId>().map(|id| *id.as_bytes())
}

// ---------------------------------------------------------------------------------------------
// Identities and addresses
// ---------------------------------------------------------------------------------------------

/// The identity of a key.
pub open spec fn identity(key: Seq<u8>) -> IdentityView {
    IdentityView { key, peer_id: peer_id_text(key) }
}

/// The identity in the bytes of a key file.
pub open spec fn identity_in(bytes: Seq<u8>) -> Result<IdentityView, IdentityError> {
    if bytes.len() == 32 {
        Ok(identity(bytes))
    } else {
        Err(IdentityError::Corrupt)
    }
}

impl IdentityError {
    /// What went wrong, in words.
    pub fn message(&self) -> (message: String)
        ensures
            message@ == "identity key file is corrupt: expected 32 bytes"@,
    {
        "identity key file is corrupt: expected 32 bytes".to_owned()
    }
}

impl AddrError {
    /// What went wrong, in words.
    pub fn message(&self) -> (message: String)
        ensures
            message@ == "invalid endpoint address in ticket"@,
    {
        "invalid endpoint address in ticket".to_owned()
    }
}

/// The identity of a newly made key. Others can reach it by its peer id.
pub fn create_key(key: [u8; 32]) -> (created: Identity)
    ensures
        created@ == identity(key@),
        endpoint_key(created@.peer_id) is Some,
{
    let peer_id = peer_id_of(&key);
    Identity { key, peer_id }
}

/// The identity in the bytes of a key file, which must be 32.
pub fn load_key(key_bytes: &[u8]) -> (loaded: Result<Identity, IdentityError>)
    ensures
        match loaded {
            Ok(found) => identity_in(key_bytes@) == Ok::<IdentityView, IdentityError>(found@),
            Err(error) => identity_in(key_bytes@) == Err::<IdentityView, IdentityError>(error),
        },
{
    if key_bytes.len() != 32 {
        return Err(IdentityError::Corrupt);
    }
    let mut key: [u8; 32] = [0u8; 32];
    let mut i: usize = 0;
    while i < 32
        invariant
            i <= 32,
            key_bytes@.len() == 32,
            forall|j: int| 0 <= j < i ==> key@[j] == key_bytes@[j],
        decreases 32 - i,
    {
        key[i] = key_bytes[i];
        i = i + 1;
    }
    assert(key@ =~= key_bytes@);
    Ok(create_key(key))
}

/// Parse an endpoint address string into the bytes of an endpoint id.
pub fn parse_endpoint_addr(addr: &str) -> (key: Result<[u8; 32], AddrError>)
    ensures
        match key {
            Ok(bytes) => endpoint_key(addr@) == Some(bytes@),
            Err(_) => endpoint_key(addr@) is None,
        },
{
    match parse_endpoint(addr) {
        Ok(bytes) => Ok(bytes),
        Err(_) => Err(AddrError::Invalid),
    }
}

/// An identity that was obtained.
pub struct Obtained {
    pub identity: Identity,
    /// Whether it is new, so that its key has to be written to the key file.
    pub is_new: bool,
}

/// The identity that is obtained from the key file, or from a fresh key if there is no file.
pub open spec fn obtained(file: Option<Seq<u8>>, fresh: Seq<u8>) -> Result<
    IdentityView,
    IdentityError,
> {
    match file {
        Some(bytes) => identity_in(bytes),
        None => Ok(identity(fresh)),
    }
}

/// The key file afterwards: what was there stays as it is, and where nothing was there is the fresh
/// key.
pub open spec fn file_after(file: Option<Seq<u8>>, fresh: Seq<u8>) -> Option<Seq<u8>> {
    match file {
        Some(bytes) => Some(bytes),
        None => Some(fresh),
    }
}

/// Loads the key in the key file, if there is one, or takes a fresh key.
pub fn load_or_create_key(file: Option<Vec<u8>>, fresh: [u8; 32]) -> (result: Result<
    Obtained,
    IdentityError,
>)
    ensures
        ({
            let bytes = match file {
                Some(b) => Some(b@),
                None => None,
            };
            match result {
                Ok(found) => {
                    &&& obtained(bytes, fresh@) == Ok::<IdentityView, IdentityError>(
                        found.identity@,
                    )
                    &&& found.is_new == (file is None)
                    &&& file_after(bytes, fresh@) == Some(found.identity@.key)
                },
                Err(error) => obtained(bytes, fresh@) == Err::<IdentityView, IdentityError>(error),
            }
        }),
{
    match file {
        Some(bytes) => match load_key(bytes.as_slice()) {
            Ok(identity) => Ok(Obtained { identity, is_new: false }),
            Err(error) => Err(error),
        },
        None => Ok(Obtained { identity: create_key(fresh), is_new: true }),
    }
}

/// The key file after as many calls as there are fresh keys.
pub open spec fn file_after_all(file: Option<Seq<u8>>, fresh: Seq<Seq<u8>>) -> Option<Seq<u8>>
    decreases fresh.len(),
{
    if fresh.len() == 0 {
        file
    } else {
        file_after(file_after_all(file, fresh.drop_last()), fresh.last())
    }
}

/// The identity stays the same: what one call obtains, every later call obtains, whatever fresh
/// keys it is offered. A key file that is there is never changed, and one that does not hold 32
/// bytes is an error every time.
pub proof fn law_identity_is_stable(
    file: Option<Seq<u8>>,
    first: Seq<u8>,
    between: Seq<Seq<u8>>,
    last: Seq<u8>,
)
    requires
        file is None ==> first.len() == 32,
    ensures
        ({
            let later = file_after_all(file_after(file, first), between);
            &&& obtained(later, last) == obtained(file, first)
            &&& file is Some ==> later == file
            &&& file is Some && file->0.len() != 32 ==> obtained(later, last) == Err::<
                IdentityView,
                IdentityError,
            >(IdentityError::Corrupt)
        }),
    decreases between.len(),
{
    if between.len() > 0 {
        law_identity_is_stable(file, first, between.drop_last(), last);
    }
}

/// A key file of 32 bytes holds the identity of just these bytes, whichever they are; any other is
/// corrupt. Without a file, the identity is that of the fresh key, which the file then holds.
pub proof fn law_key_file_is_the_identity(file: Seq<u8>, fresh: Seq<u8>)
    ensures
        file.len() == 32 ==> obtained(Some(file), fresh) == Ok::<IdentityView, IdentityError>(
            IdentityView { key: file, peer_id: peer_id_text(file) },
        ),
        file.len() != 32 ==> obtained(Some(file), fresh) is Err,
        obtained(None, fresh) == Ok::<IdentityView, IdentityError>(
            IdentityView { key: fresh, peer_id: peer_id_text(fresh) },
        ),
        file_after(None, fresh) == Some(fresh),
        file_after(Some(file), fresh) == Some(file),
{
}

}

//! Where the server keeps its key pairs on disk.
use vstd::prelude::*;

use crate::core_objects::KeyType;
use crate::key_pair::{create_inner as create_key_pem, pem_holds_key_for, Error};
use crate::text::{from_chars, to_chars};

verus! {

/// Key algorithms a key pair can be created with.
#[derive(Clone, Copy, Debug, PartialEq, Eq, Structural)]
pub enum PreferredAlgorithm {
    NistP256,
    Rsa2048,
    Rsa4096,
}

/// The disk key store's configuration: the directory of the key files.
pub struct KeyStoreConfigDisk {
    pub key_base_path: String,
}

/// A key store that keeps each key pair in a file named by the key id.
pub struct KeyStore {
    pub key_base_path: String,
}

/// A path with a name pushed onto it (`PathBuf::push` on Unix): an absolute name replaces the
/// path; otherwise a `/` separates them unless the path is empty or already ends with one.
pub open spec fn pushed_path(base: Seq<char>, name: Seq<char>) -> Seq<char> {
    if name.len() > 0 && name[0] == '/' {
        name
    } else if base.len() > 0 && base.last() != '/' {
        base + seq!['/'] + name
    } else {
        base + name
    }
}

impl KeyStore {
    /// A key store over the configured directory.
    pub fn new(config: &KeyStoreConfigDisk) -> (r: Self)
        ensures
            r.key_base_path@ == config.key_base_path@,
    {
        KeyStore { key_base_path: config.key_base_path.clone() }
    }

    /// The file of the key pair with the given id.
    pub fn get_key_path(&self, id: &str) -> (r: String)
        ensures
            r@ == pushed_path(self.key_base_path@, id@),
    {
        let base = to_chars(self.key_base_path.as_str());
        let name = to_chars(id);
        if name.len() > 0 && name[0] == '/' {
            return from_chars(name.as_slice());
        }
        let mut out = base;
        if out.len() > 0 && out[out.len() - 1] != '/' {
            out.push('/');
        }
        let ghost prefix = out@;
        let mut i: usize = 0;
        while i < name.len()
            invariant
                i <= name.len(),
                out@ == prefix + name@.take(i as int),
            decreases name.len() - i,
        {
            out.push(name[i]);
            assert(name@.take(i + 1) =~= name@.take(i as int).push(name@[i as int]));
            assert(out@ =~= prefix + name@.take(i + 1));
            i = i + 1;
        }
        assert(name@.take(name.len() as int) =~= name@);
        assert(out@ =~= pushed_path(self.key_base_path@, id@));
        from_chars(out.as_slice())
    }
}

/// A new private key for the server's key store as PKCS#8 PEM: a P-256 key for ES256, the only
/// key type the store creates.
pub fn create_inner(key_type: KeyType) -> (r: Result<Vec<u8>, Error>)
    ensures
        key_type != KeyType::ES256 ==> (r matches Err(Error::UnimplementedKeyType(k)) && k == key_type),
        r matches Err(Error::UnimplementedKeyType(_)) ==> key_type != KeyType::ES256,
        r matches Err(e) ==> (e is Openssl || e is UnimplementedKeyType),
        r matches Ok(pem) ==> key_type == KeyType::ES256 && pem_holds_key_for(pem@, PreferredAlgorithm::NistP256),
{
    if key_type != KeyType::ES256 {
        return Err(Error::UnimplementedKeyType(key_type));
    }
    create_key_pem(&PreferredAlgorithm::NistP256)
}

} // verus!

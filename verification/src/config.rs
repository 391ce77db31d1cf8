//! The secret store: owns the resolved paths and the derived key, and turns
//! stored blobs into credentials and back.
//!
//! The store never touches the disk or the process environment itself: the
//! caller reads the backing file and the override variable and passes them
//! in as plain values, and writes back the blob a save returns. This keeps
//! every decision — override precedence, read-modify-write of the record,
//! failure classification — verified, and leaves the caller one obvious
//! read and one obvious write.
//!
//! The key is derived on construction: the SHA-256 digest of the
//! configuration directory path, the host name and a fixed salt, so a store
//! opened later on the same machine for the same directory derives the same
//! key. The key never leaves the store and is never persisted.

use vstd::prelude::*;
use vstd::string::StringExecFns;
use vstd::utf8::encode_utf8;

use crate::crypto::{
    blob_of, decrypt_bytes, decrypt_of, derive_key_bytes, encrypt_bytes, sha256_of, KEY_LEN,
    NONCE_LEN,
};
use crate::error::{ConfigError, ErrorKind};
use crate::record::{
    default_config, default_model, default_model_string, encode_config, parse_config,
    parse_config_bytes, AppConfig, AppConfigView,
};

verus! {

/// Relies on `dirs::config_dir`: the platform's per-user configuration
/// directory, if it defines one. The value depends on the environment, so
/// nothing is assumed about it.
#[verifier::external_body]
fn config_base_dir() -> (r: Option<String>) {
    dirs::config_dir().map(|p| p.to_string_lossy().into_owned())
}

/// Relies on `gethostname::gethostname`: the machine's host name. The value
/// depends on the machine, so nothing is assumed about it.
#[verifier::external_body]
fn machine_hostname() -> (r: String) {
    gethostname::gethostname().to_string_lossy().into_owned()
}

/// The identity material the key is derived from: directory path, host name
/// and a fixed application salt.
pub open spec fn key_material(dir: Seq<char>, host: Seq<char>) -> Seq<char> {
    dir + ":"@ + host + "mcp-switchboard-config-key"@
}

/// The derived key: the SHA-256 digest of the identity material. The same
/// directory and host always derive the same key.
pub open spec fn derived_key(dir: Seq<char>, host: Seq<char>) -> Seq<u8> {
    sha256_of(encode_utf8(key_material(dir, host)))
}

/// Mathematical view of a [`ConfigManager`].
pub struct ConfigManagerView {
    pub config_dir: Seq<char>,
    pub config_file: Seq<char>,
    pub key: Seq<u8>,
}

/// The secret store: resolved paths and the derived key.
pub struct ConfigManager {
    config_dir: String,
    config_file: String,
    key: Vec<u8>,
}

impl View for ConfigManager {
    type V = ConfigManagerView;

    closed spec fn view(&self) -> ConfigManagerView {
        ConfigManagerView {
            config_dir: self.config_dir@,
            config_file: self.config_file@,
            key: self.key@,
        }
    }
}

/// What loading a stored blob yields.
pub enum LoadOutcome {
    /// No file was present: never configured.
    Absent,
    /// The blob decrypted and parsed to this record.
    Found(AppConfigView),
    /// The blob did not decrypt and authenticate.
    DecryptFailure,
    /// The plaintext was not a well-formed record.
    ParseFailure,
}

/// Loading, as a function of the key and the stored blob.
pub open spec fn spec_load(key: Seq<u8>, stored: Option<Seq<char>>) -> LoadOutcome {
    match stored {
        None => LoadOutcome::Absent,
        Some(blob) => match decrypt_of(key, blob) {
            None => LoadOutcome::DecryptFailure,
            Some(p) => match parse_config_bytes(p) {
                None => LoadOutcome::ParseFailure,
                Some(c) => LoadOutcome::Found(c),
            },
        },
    }
}

/// The credential a loaded store yields: absent when never configured or
/// when the stored credential is empty; an error kind when the file is
/// present but corrupt — a corrupt file is distinguishable from "never
/// configured".
pub open spec fn spec_stored_credential(key: Seq<u8>, stored: Option<Seq<char>>) -> Result<
    Option<Seq<char>>,
    ErrorKind,
> {
    match spec_load(key, stored) {
        LoadOutcome::Absent => Ok(None),
        LoadOutcome::Found(c) => if c.credential.len() > 0 {
            Ok(Some(c.credential))
        } else {
            Ok(None)
        },
        LoadOutcome::DecryptFailure => Err(ErrorKind::CryptoFailure),
        LoadOutcome::ParseFailure => Err(ErrorKind::Serialization),
    }
}

/// The credential the store yields: a set, non-empty environment override
/// takes precedence and the file is not consulted; otherwise the stored
/// credential.
pub open spec fn spec_get_credential(
    key: Seq<u8>,
    env: Option<Seq<char>>,
    stored: Option<Seq<char>>,
) -> Result<Option<Seq<char>>, ErrorKind> {
    match env {
        Some(e) => if e.len() > 0 {
            Ok(Some(e))
        } else {
            spec_stored_credential(key, stored)
        },
        None => spec_stored_credential(key, stored),
    }
}

/// The preferred model the store yields: the stored one if a record loads
/// and holds one, else the fixed default. Loading failures fall back to the
/// default; this read never fails.
pub open spec fn spec_preferred_model(key: Seq<u8>, stored: Option<Seq<char>>) -> Seq<char> {
    match spec_load(key, stored) {
        LoadOutcome::Found(c) => match c.model {
            Some(m) => m,
            None => default_model(),
        },
        _ => default_model(),
    }
}

/// Whether a secret is configured: the override is set and non-empty, or
/// the backing file exists. An existence check only — no decryption.
pub open spec fn spec_has_config(env: Option<Seq<char>>, file_exists: bool) -> bool {
    (match env {
        Some(e) => e.len() > 0,
        None => false,
    }) || file_exists
}

/// The record after a save of the credential field: only that field
/// changes; an absent record starts from the blank default.
pub open spec fn with_credential(prev: LoadOutcome, value: Seq<char>) -> AppConfigView {
    match prev {
        LoadOutcome::Found(c) => AppConfigView { credential: value, model: c.model },
        _ => AppConfigView { credential: value, model: default_config().model },
    }
}

/// The record after a save of the model field: only that field changes.
pub open spec fn with_model(prev: LoadOutcome, value: Seq<char>) -> AppConfigView {
    match prev {
        LoadOutcome::Found(c) => AppConfigView { credential: c.credential, model: Some(value) },
        _ => AppConfigView { credential: default_config().credential, model: Some(value) },
    }
}

/// View of an optional borrowed string.
pub open spec fn opt_view(o: Option<&str>) -> Option<Seq<char>> {
    match o {
        Some(s) => Some(s@),
        None => None,
    }
}

/// View of a credential lookup result.
pub open spec fn cred_result_view(r: Result<Option<String>, ConfigError>) -> Result<
    Option<Seq<char>>,
    ErrorKind,
> {
    match r {
        Ok(Some(s)) => Ok(Some(s@)),
        Ok(None) => Ok(None),
        Err(e) => Err(e.kind),
    }
}

impl ConfigManager {
    /// The store is usable: its key has the cipher's key length.
    pub open spec fn wf(&self) -> bool {
        self@.key.len() == KEY_LEN
    }

    /// Builds a store from explicit paths and host name, deriving the key
    /// from the directory path and the host name.
    pub fn with_paths(config_dir: String, config_file: String, host: String) -> (r: ConfigManager)
        ensures
            r@.config_dir == config_dir@,
            r@.config_file == config_file@,
            r@.key == derived_key(config_dir@, host@),
            r.wf(),
    {
        let mut material = config_dir.clone();
        material.append(":");
        material.append(host.as_str());
        material.append("mcp-switchboard-config-key");
        proof {
            assert(material@ =~= key_material(config_dir@, host@));
        }
        let key = derive_key_bytes(material.as_str().as_bytes());
        ConfigManager { config_dir, config_file, key }
    }

    /// Resolves the platform configuration directory and builds the store
    /// under it. Fails only when the platform defines no such directory.
    pub fn new() -> (r: Result<ConfigManager, ConfigError>)
        ensures
            r matches Ok(m) ==> m.wf() && m@.config_file == m@.config_dir + "/config.json"@,
            r matches Err(e) ==> e.kind == ErrorKind::ConfigDirectoryUnavailable,
    {
        let base = match config_base_dir() {
            Some(b) => b,
            None => {
                return Err(
                    ConfigError::new(
                        ErrorKind::ConfigDirectoryUnavailable,
                        "Could not determine config directory".to_owned(),
                    ),
                );
            },
        };
        let config_dir = base.concat("/mcp-switchboard");
        let config_file = config_dir.clone().concat("/config.json");
        let host = machine_hostname();
        Ok(ConfigManager::with_paths(config_dir, config_file, host))
    }

    /// The path of the backing file.
    pub fn get_config_path(&self) -> (r: &String)
        ensures
            r@ == self@.config_file,
    {
        &self.config_file
    }

    /// Whether a secret is configured, given whether the override variable
    /// is set (and to what) and whether the backing file exists.
    pub fn has_config(&self, env_override: Option<&str>, file_exists: bool) -> (r: bool)
        ensures
            r == spec_has_config(opt_view(env_override), file_exists),
    {
        match env_override {
            Some(e) => !e.is_empty() || file_exists,
            None => file_exists,
        }
    }

    /// Encrypts arbitrary bytes into a storable blob under this store's
    /// key, with a fresh random nonce embedded in the blob.
    pub fn encrypt_data(&self, data: &[u8]) -> (r: Result<String, ConfigError>)
        requires
            self.wf(),
        ensures
            r matches Ok(b) ==> exists|n: Seq<u8>|
                n.len() == NONCE_LEN && b@ == blob_of(self@.key, n, data@) && decrypt_of(
                    self@.key,
                    b@,
                ) == Some(data@),
            r matches Err(e) ==> e.kind == ErrorKind::CryptoFailure,
    {
        encrypt_bytes(&self.key, data)
    }

    /// Decrypts a stored blob under this store's key.
    pub fn decrypt_data(&self, encrypted: &str) -> (r: Result<Vec<u8>, ConfigError>)
        requires
            self.wf(),
        ensures
            r matches Ok(p) ==> decrypt_of(self@.key, encrypted@) == Some(p@),
            r matches Err(e) ==> decrypt_of(self@.key, encrypted@) is None && e.kind
                == ErrorKind::CryptoFailure,
    {
        decrypt_bytes(&self.key, encrypted)
    }

    /// Loads the record from the stored blob, exactly as [`spec_load`]
    /// states.
    pub fn load_config(&self, stored: Option<&str>) -> (r: Result<Option<AppConfig>, ConfigError>)
        requires
            self.wf(),
        ensures
            ({
                let o = spec_load(self@.key, opt_view(stored));
                &&& o is Absent ==> (r matches Ok(x) && x is None)
                &&& o matches LoadOutcome::Found(c) ==> (r matches Ok(x) && x matches Some(cfg)
                    && cfg@ == c)
                &&& o is DecryptFailure ==> (r matches Err(e) && e.kind
                    == ErrorKind::CryptoFailure)
                &&& o is ParseFailure ==> (r matches Err(e) && e.kind == ErrorKind::Serialization)
            }),
    {
        let blob = match stored {
            None => {
                return Ok(None);
            },
            Some(b) => b,
        };
        let plain = self.decrypt_data(blob)?;
        match parse_config(plain.as_slice()) {
            Some(c) => Ok(Some(c)),
            None => Err(ConfigError::new(ErrorKind::Serialization, "Invalid config data".to_owned())),
        }
    }

    /// Encrypts a record into a storable blob that loads back as exactly
    /// that record.
    pub fn save_config(&self, config: &AppConfig) -> (r: Result<String, ConfigError>)
        requires
            self.wf(),
        ensures
            r matches Ok(b) ==> spec_load(self@.key, Some(b@)) == LoadOutcome::Found(config@),
            r matches Err(e) ==> e.kind == ErrorKind::CryptoFailure,
    {
        let data = encode_config(config);
        let blob = self.encrypt_data(data.as_slice())?;
        proof {
            crate::record::lemma_config_round_trip(config@);
        }
        Ok(blob)
    }

    /// The credential, by precedence: a set, non-empty environment override
    /// first; else the stored record's credential (empty meaning absent);
    /// absent when never configured. A present-but-corrupt file is an
    /// error, never a silent absence.
    pub fn get_api_key(&self, env_override: Option<&str>, stored: Option<&str>) -> (r: Result<
        Option<String>,
        ConfigError,
    >)
        requires
            self.wf(),
        ensures
            cred_result_view(r) == spec_get_credential(
                self@.key,
                opt_view(env_override),
                opt_view(stored),
            ),
    {
        if let Some(e) = env_override {
            if !e.is_empty() {
                return Ok(Some(e.to_owned()));
            }
        }
        match self.load_config(stored) {
            Ok(Some(config)) => {
                if config.together_ai_api_key.as_str().is_empty() {
                    Ok(None)
                } else {
                    Ok(Some(config.together_ai_api_key))
                }
            },
            Ok(None) => Ok(None),
            Err(e) => Err(e),
        }
    }

    /// Saves the credential: read-modify-write of the whole record, keeping
    /// the stored model field and starting from the blank default when no
    /// record exists. On success the returned blob loads back as the
    /// updated record. A present-but-corrupt record fails the save.
    pub fn save_api_key(&self, api_key: String, stored: Option<&str>) -> (r: Result<
        String,
        ConfigError,
    >)
        requires
            self.wf(),
        ensures
            ({
                let o = spec_load(self@.key, opt_view(stored));
                &&& o is DecryptFailure ==> (r matches Err(e) && e.kind
                    == ErrorKind::CryptoFailure)
                &&& o is ParseFailure ==> (r matches Err(e) && e.kind == ErrorKind::Serialization)
                &&& (o is Absent || o is Found) ==> ((r matches Ok(b) ==> spec_load(
                    self@.key,
                    Some(b@),
                ) == LoadOutcome::Found(with_credential(o, api_key@))) && (r matches Err(e)
                    ==> e.kind == ErrorKind::CryptoFailure))
            }),
    {
        let mut config = match self.load_config(stored)? {
            Some(c) => c,
            None => AppConfig::default(),
        };
        config.together_ai_api_key = api_key;
        self.save_config(&config)
    }

    /// The preferred model: the stored one when a record loads and holds
    /// one, else the fixed default. Never fails.
    pub fn get_preferred_model(&self, stored: Option<&str>) -> (r: String)
        requires
            self.wf(),
        ensures
            r@ == spec_preferred_model(self@.key, opt_view(stored)),
    {
        match self.load_config(stored) {
            Ok(Some(config)) => match config.preferred_model {
                Some(m) => m,
                None => default_model_string(),
            },
            _ => default_model_string(),
        }
    }

    /// Saves the preferred model: read-modify-write keeping the stored
    /// credential. On success the returned blob loads back as the updated
    /// record.
    pub fn save_preferred_model(&self, model: String, stored: Option<&str>) -> (r: Result<
        String,
        ConfigError,
    >)
        requires
            self.wf(),
        ensures
            ({
                let o = spec_load(self@.key, opt_view(stored));
                &&& o is DecryptFailure ==> (r matches Err(e) && e.kind
                    == ErrorKind::CryptoFailure)
                &&& o is ParseFailure ==> (r matches Err(e) && e.kind == ErrorKind::Serialization)
                &&& (o is Absent || o is Found) ==> ((r matches Ok(b) ==> spec_load(
                    self@.key,
                    Some(b@),
                ) == LoadOutcome::Found(with_model(o, model@))) && (r matches Err(e) ==> e.kind
                    == ErrorKind::CryptoFailure))
            }),
    {
        let mut config = match self.load_config(stored)? {
            Some(c) => c,
            None => AppConfig::default(),
        };
        config.preferred_model = Some(model);
        self.save_config(&config)
    }
}

// ---------------------------------------------------------------------------
// Laws.
// ---------------------------------------------------------------------------

/// Round trip: a blob that loads as a record with a non-empty credential —
/// which is what a successful save of that credential returns — yields
/// exactly that credential on the next read, with no override set.
pub proof fn lemma_credential_round_trip(key: Seq<u8>, blob: Seq<char>, c: AppConfigView)
    requires
        spec_load(key, Some(blob)) == LoadOutcome::Found(c),
        c.credential.len() > 0,
    ensures
        spec_get_credential(key, None, Some(blob)) == Ok::<Option<Seq<char>>, ErrorKind>(
            Some(c.credential),
        ),
{
}

/// Precedence: a set, non-empty override is returned whatever the file
/// holds, and counts as a configured secret whether or not the file exists.
pub proof fn lemma_env_override_precedence(
    key: Seq<u8>,
    e: Seq<char>,
    stored: Option<Seq<char>>,
    file_exists: bool,
)
    requires
        e.len() > 0,
    ensures
        spec_get_credential(key, Some(e), stored) == Ok::<Option<Seq<char>>, ErrorKind>(Some(e)),
        spec_has_config(Some(e), file_exists),
{
}

/// Tamper surfacing: a blob that does not decrypt and authenticate is
/// reported as a crypto error on read — never as a silent absence, never as
/// a credential.
pub proof fn lemma_tampered_blob_is_error(key: Seq<u8>, blob: Seq<char>)
    requires
        decrypt_of(key, blob) is None,
    ensures
        spec_get_credential(key, None, Some(blob)) == Err::<Option<Seq<char>>, ErrorKind>(
            ErrorKind::CryptoFailure,
        ),
{
}

} // verus!


//! Validated command-line flags: transport, verbosity, authentication.

use vstd::prelude::*;

verus! {

/// A combination of command-line flags that cannot stand together.
#[derive(PartialEq, Eq, Structural, Clone, Copy, Debug)]
pub enum ConfigError {
    /// Both `--encrypt` and `--no-encrypt`.
    ConflictingEncryption,
    /// Both `--verbose` and `--quiet`.
    ConflictingVerbosity,
}

/// The transport the operator asked for.
#[derive(PartialEq, Eq, Structural, Clone, Copy, Debug)]
pub enum Encryption {
    /// Keep the endpoint's scheme; plain HTTP when it has none.
    Auto,
    /// Force HTTPS on port 5986.
    Encrypt,
    /// Force HTTP on port 5985.
    Plain,
}

impl Encryption {
    /// The transport for the two flags; both at once is an error.
    pub fn from_flags(encrypt: bool, no_encrypt: bool) -> (r: Result<Encryption, ConfigError>)
        ensures
            encrypt && no_encrypt <==> r == Err::<Encryption, ConfigError>(
                ConfigError::ConflictingEncryption,
            ),
            encrypt && !no_encrypt ==> r == Ok::<Encryption, ConfigError>(Encryption::Encrypt),
            !encrypt && no_encrypt ==> r == Ok::<Encryption, ConfigError>(Encryption::Plain),
            !encrypt && !no_encrypt ==> r == Ok::<Encryption, ConfigError>(Encryption::Auto),
    {
        if encrypt && no_encrypt {
            Err(ConfigError::ConflictingEncryption)
        } else if encrypt {
            Ok(Encryption::Encrypt)
        } else if no_encrypt {
            Ok(Encryption::Plain)
        } else {
            Ok(Encryption::Auto)
        }
    }

    /// Whether HTTPS is forced.
    pub fn encrypt(&self) -> (r: bool)
        ensures
            r == (*self == Encryption::Encrypt),
    {
        *self == Encryption::Encrypt
    }

    /// Whether plain HTTP is forced.
    pub fn no_encrypt(&self) -> (r: bool)
        ensures
            r == (*self == Encryption::Plain),
    {
        *self == Encryption::Plain
    }
}

/// Level at and above which informational messages are shown.
pub const INFO_LEVEL: u8 = 1;

/// Level at and above which detailed messages are shown.
pub const VERBOSE_LEVEL: u8 = 2;

/// How much the run reports about itself: 0 quiet, 1 informational,
/// 2 verbose. Fixed once, before any session work.
#[derive(PartialEq, Eq, Structural, Clone, Copy, Debug)]
pub struct Verbosity {
    level: u8,
}

impl Verbosity {
    pub closed spec fn spec_level(&self) -> u8 {
        self.level
    }

    /// The quiet default.
    pub fn quiet() -> (r: Verbosity)
        ensures
            r.spec_level() == 0,
    {
        Verbosity { level: 0 }
    }

    /// The level for the two flags: `verbose` gives 2, otherwise the quiet
    /// default; both at once is an error.
    pub fn from_flags(verbose: bool, quiet: bool) -> (r: Result<Verbosity, ConfigError>)
        ensures
            verbose && quiet <==> r == Err::<Verbosity, ConfigError>(
                ConfigError::ConflictingVerbosity,
            ),
            verbose && !quiet ==> r is Ok && r->Ok_0.spec_level() == 2,
            !verbose ==> r is Ok && r->Ok_0.spec_level() == 0,
    {
        if verbose && quiet {
            Err(ConfigError::ConflictingVerbosity)
        } else if verbose {
            Ok(Verbosity { level: VERBOSE_LEVEL })
        } else {
            Ok(Verbosity { level: 0 })
        }
    }

    /// The level.
    pub fn level(&self) -> (r: u8)
        ensures
            r == self.spec_level(),
    {
        self.level
    }

    /// Whether informational messages are shown (level 1 and up).
    pub fn info_enabled(&self) -> (r: bool)
        ensures
            r == (self.spec_level() >= 1),
    {
        self.level >= INFO_LEVEL
    }

    /// Whether detailed messages are shown (level 2 and up).
    pub fn verbose_enabled(&self) -> (r: bool)
        ensures
            r == (self.spec_level() >= 2),
    {
        self.level >= VERBOSE_LEVEL
    }
}

/// The validated flags of one invocation.
pub struct Flags {
    pub encryption: Encryption,
    pub verbosity: Verbosity,
}

pub open spec fn encryption_of(encrypt: bool, no_encrypt: bool) -> Encryption {
    if encrypt {
        Encryption::Encrypt
    } else if no_encrypt {
        Encryption::Plain
    } else {
        Encryption::Auto
    }
}

/// Checks the mutually exclusive flags before anything touches the network:
/// the encryption pair first, then the verbosity pair.
pub fn validate_flags(encrypt: bool, no_encrypt: bool, verbose: bool, quiet: bool) -> (r: Result<
    Flags,
    ConfigError,
>)
    ensures
        encrypt && no_encrypt ==> r matches Err(ConfigError::ConflictingEncryption),
        !(encrypt && no_encrypt) && verbose && quiet ==> r matches Err(
            ConfigError::ConflictingVerbosity,
        ),
        !(encrypt && no_encrypt) && !(verbose && quiet) ==> (r matches Ok(flags)
            && flags.encryption == encryption_of(encrypt, no_encrypt)
            && flags.verbosity.spec_level() == (if verbose { 2u8 } else { 0u8 })),
{
    let encryption = match Encryption::from_flags(encrypt, no_encrypt) {
        Ok(e) => e,
        Err(e) => return Err(e),
    };
    let verbosity = match Verbosity::from_flags(verbose, quiet) {
        Ok(v) => v,
        Err(e) => return Err(e),
    };
    Ok(Flags { encryption, verbosity })
}

/// How the client authenticates.
#[derive(PartialEq, Eq, Structural, Clone, Copy, Debug)]
pub enum AuthMethod {
    Ntlm,
    Basic,
    Kerberos,
}

impl AuthMethod {
    /// The name the remote-management library expects.
    pub fn as_str(&self) -> (r: &'static str)
        ensures
            r@ == auth_name(*self),
    {
        proof {
            reveal_strlit("ntlm");
            reveal_strlit("basic");
            reveal_strlit("kerberos");
        }
        match self {
            AuthMethod::Ntlm => "ntlm",
            AuthMethod::Basic => "basic",
            AuthMethod::Kerberos => "kerberos",
        }
    }
}

pub open spec fn auth_name(m: AuthMethod) -> Seq<char> {
    match m {
        AuthMethod::Ntlm => seq!['n', 't', 'l', 'm'],
        AuthMethod::Basic => seq!['b', 'a', 's', 'i', 'c'],
        AuthMethod::Kerberos => seq!['k', 'e', 'r', 'b', 'e', 'r', 'o', 's'],
    }
}

} // verus!

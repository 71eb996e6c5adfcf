//! The backend registry: which kinds of backend a build offers, which token
//! names each, and what its constructor is given.

use vstd::prelude::*;
use vstd::string::*;
use crate::boot::{parse_boot_parameters, reading_of, BootParameters, Reading};
use crate::error::ClientError;

verus! {

/// The kinds of backend.
#[derive(Debug, Clone, Copy, PartialEq, Eq, Structural)]
pub enum BackendKind {
    /// The networked confidential-computing client, token `cc_kbc`.
    NetworkedConfidential,
    /// The hardware-attested SEV client, token `online_sev_kbc`.
    HardwareSev,
    /// The offline client backed by the filesystem, token `offline_fs_kbc`.
    OfflineFilesystem,
}

/// The optional capabilities of a build. The offline backend needs none.
#[derive(Debug, Clone, Copy, PartialEq, Eq, Structural)]
pub struct Features {
    /// Enables the networked confidential-computing backend.
    pub kbs: bool,
    /// Enables the SEV backend.
    pub sev: bool,
}

/// What the registry hands to a constructor: the kind to build, and the host
/// argument where the kind takes one.
#[derive(Debug, PartialEq, Eq)]
pub struct Construction {
    pub kind: BackendKind,
    pub host: Option<String>,
}

impl BackendKind {
    /// The token that names this kind on the command line.
    pub open spec fn token_spec(self) -> Seq<char> {
        match self {
            BackendKind::NetworkedConfidential => "cc_kbc"@,
            BackendKind::HardwareSev => "online_sev_kbc"@,
            BackendKind::OfflineFilesystem => "offline_fs_kbc"@,
        }
    }

    /// Whether a build with `features` holds this kind.
    pub open spec fn available_spec(self, features: Features) -> bool {
        match self {
            BackendKind::NetworkedConfidential => features.kbs,
            BackendKind::HardwareSev => features.sev,
            BackendKind::OfflineFilesystem => true,
        }
    }

    /// Whether this kind's constructor takes the host argument. The offline
    /// backend does not: whatever the command line gives it is dropped.
    pub open spec fn takes_host_spec(self) -> bool {
        self != BackendKind::OfflineFilesystem
    }

    /// The token that names this kind on the command line.
    pub fn token(self) -> (text: &'static str)
        ensures
            text@ == self.token_spec(),
    {
        match self {
            BackendKind::NetworkedConfidential => "cc_kbc",
            BackendKind::HardwareSev => "online_sev_kbc",
            BackendKind::OfflineFilesystem => "offline_fs_kbc",
        }
    }

    /// Whether a build with `features` holds this kind.
    pub fn available(self, features: Features) -> (r: bool)
        ensures
            r == self.available_spec(features),
    {
        match self {
            BackendKind::NetworkedConfidential => features.kbs,
            BackendKind::HardwareSev => features.sev,
            BackendKind::OfflineFilesystem => true,
        }
    }

    /// Whether this kind's constructor takes the host argument.
    pub fn takes_host(self) -> (r: bool)
        ensures
            r == self.takes_host_spec(),
    {
        match self {
            BackendKind::OfflineFilesystem => false,
            _ => true,
        }
    }
}

/// The kind that `token` selects in a build with `features`: the one whose
/// token it is, character for character, if the build holds it.
pub open spec fn kind_of(token: Seq<char>, features: Features) -> Option<BackendKind> {
    if token == BackendKind::NetworkedConfidential.token_spec() {
        if features.kbs {
            Some(BackendKind::NetworkedConfidential)
        } else {
            None
        }
    } else if token == BackendKind::HardwareSev.token_spec() {
        if features.sev {
            Some(BackendKind::HardwareSev)
        } else {
            None
        }
    } else if token == BackendKind::OfflineFilesystem.token_spec() {
        Some(BackendKind::OfflineFilesystem)
    } else {
        None
    }
}

/// The kinds that a build with `features` holds, in the order networked,
/// SEV, offline.
pub open spec fn available_kinds_spec(features: Features) -> Seq<BackendKind> {
    let networked = if features.kbs {
        seq![BackendKind::NetworkedConfidential]
    } else {
        seq![]
    };
    let sev = if features.sev {
        seq![BackendKind::HardwareSev]
    } else {
        seq![]
    };
    networked + sev + seq![BackendKind::OfflineFilesystem]
}

/// The token of `kind` between backquotes, as a message shows it.
pub open spec fn quoted_token(kind: BackendKind) -> Seq<char> {
    "`"@ + kind.token_spec() + "`"@
}

/// The tokens of `kinds`, each between backquotes, in their order, with a
/// comma and a space between two of them.
pub open spec fn kinds_text_spec(kinds: Seq<BackendKind>) -> Seq<char>
    decreases kinds.len(),
{
    if kinds.len() == 0 {
        Seq::empty()
    } else if kinds.len() == 1 {
        quoted_token(kinds[0])
    } else {
        kinds_text_spec(kinds.drop_last()) + ", "@ + quoted_token(kinds.last())
    }
}

/// What a message says of a build with `features`: the tokens of the kinds
/// that the build holds, and of no other.
pub open spec fn available_text_spec(features: Features) -> Seq<char> {
    kinds_text_spec(available_kinds_spec(features))
}

/// `r` is what the registry answers to the parameters `(kind, host)`.
pub open spec fn selects(
    r: Result<Construction, ClientError>,
    kind: Seq<char>,
    host: Seq<char>,
    features: Features,
) -> bool {
    match kind_of(kind, features) {
        Some(k) => r matches Ok(c) && c.kind == k && if k.takes_host_spec() {
            c.host matches Some(h) && h@ == host
        } else {
            c.host is None
        },
        None => r matches Err(ClientError::UnknownBackend(t)) && t@ == kind,
    }
}

/// `r` is what reader and registry together make of the command line `text`.
pub open spec fn plans(
    r: Result<Construction, ClientError>,
    text: Seq<char>,
    features: Features,
) -> bool {
    match reading_of(text) {
        Reading::Parameters { kind, host } => selects(r, kind, host, features),
        Reading::Missing => r == Err::<Construction, ClientError>(ClientError::MissingParameter),
        Reading::Malformed => r == Err::<Construction, ClientError>(
            ClientError::MalformedParameter,
        ),
    }
}

/// Tells whether two texts hold the same characters.
pub fn same_text(a: &str, b: &str) -> (r: bool)
    ensures
        r == (a@ == b@),
{
    let n: usize = a.unicode_len();
    if b.unicode_len() != n {
        return false;
    }
    let mut i: usize = 0;
    while i < n
        invariant
            n == a@.len(),
            n == b@.len(),
            i <= n,
            forall|k: int| 0 <= k < i ==> a@[k] == b@[k],
        decreases n - i,
    {
        if a.get_char(i) != b.get_char(i) {
            return false;
        }
        i += 1;
    }
    assert(a@ =~= b@);
    true
}

/// Lists the kinds that a build with `features` holds.
pub fn available_kinds(features: Features) -> (kinds: Vec<BackendKind>)
    ensures
        kinds@ == available_kinds_spec(features),
{
    let mut kinds: Vec<BackendKind> = Vec::new();
    if features.kbs {
        kinds.push(BackendKind::NetworkedConfidential);
    }
    if features.sev {
        kinds.push(BackendKind::HardwareSev);
    }
    kinds.push(BackendKind::OfflineFilesystem);
    assert(kinds@ =~= available_kinds_spec(features));
    kinds
}

/// Writes the tokens of `kinds` out for a message.
pub fn kinds_text(kinds: &Vec<BackendKind>) -> (text: String)
    ensures
        text@ == kinds_text_spec(kinds@),
{
    let mut text = String::new();
    let mut i: usize = 0;
    while i < kinds.len()
        invariant
            i <= kinds.len(),
            text@ == kinds_text_spec(kinds@.take(i as int)),
        decreases kinds.len() - i,
    {
        if i > 0 {
            text.append(", ");
        }
        text.append("`");
        text.append(kinds[i].token());
        text.append("`");
        proof {
            let upto = kinds@.take(i + 1);
            assert(upto.drop_last() =~= kinds@.take(i as int));
            assert(upto.last() == kinds@[i as int]);
            assert(text@ =~= kinds_text_spec(upto));
        }
        i += 1;
    }
    assert(kinds@.take(kinds.len() as int) =~= kinds@);
    text
}

/// Writes out the tokens of the kinds that a build with `features` holds.
pub fn available_text(features: Features) -> (text: String)
    ensures
        text@ == available_text_spec(features),
{
    let kinds = available_kinds(features);
    kinds_text(&kinds)
}

/// Looks the token up: the kind it names, if this build holds that kind.
/// Tokens are compared exactly, with case.
pub fn lookup(token: &str, features: Features) -> (r: Option<BackendKind>)
    ensures
        r == kind_of(token@, features),
{
    if same_text(token, BackendKind::NetworkedConfidential.token()) {
        if features.kbs {
            Some(BackendKind::NetworkedConfidential)
        } else {
            None
        }
    } else if same_text(token, BackendKind::HardwareSev.token()) {
        if features.sev {
            Some(BackendKind::HardwareSev)
        } else {
            None
        }
    } else if same_text(token, BackendKind::OfflineFilesystem.token()) {
        Some(BackendKind::OfflineFilesystem)
    } else {
        None
    }
}

/// Chooses the backend for the boot parameters. A token that names no kind
/// of this build is refused with the token; the host argument goes to the
/// kinds that take one.
pub fn select_backend(parameters: BootParameters, features: Features) -> (r: Result<
    Construction,
    ClientError,
>)
    ensures
        selects(r, parameters.kind_token@, parameters.host_argument@, features),
{
    match lookup(parameters.kind_token.as_str(), features) {
        Some(kind) => {
            let host = if kind.takes_host() {
                Some(parameters.host_argument)
            } else {
                None
            };
            Ok(Construction { kind, host })
        },
        None => Err(ClientError::UnknownBackend(parameters.kind_token)),
    }
}

/// Reader and registry in one: from the text of the command line to what
/// must be constructed.
pub fn plan_construction(cmdline: &str, features: Features) -> (r: Result<
    Construction,
    ClientError,
>)
    ensures
        plans(r, cmdline@, features),
{
    match parse_boot_parameters(cmdline) {
        Ok(parameters) => select_backend(parameters, features),
        Err(e) => Err(e),
    }
}

/// The kinds listed for a build are those that it holds, each once.
pub proof fn lemma_listed_kinds_are_available(features: Features, kind: BackendKind)
    ensures
        available_kinds_spec(features).contains(kind) <==> kind.available_spec(features),
        available_kinds_spec(features).no_duplicates(),
{
    let kinds = available_kinds_spec(features);
    if kind.available_spec(features) {
        let at: int = match kind {
            BackendKind::NetworkedConfidential => 0,
            BackendKind::HardwareSev => if features.kbs {
                1
            } else {
                0
            },
            BackendKind::OfflineFilesystem => kinds.len() - 1,
        };
        assert(kinds[at] == kind);
    }
}

/// The text for a build, written out: the offline token always, behind the
/// networked token where the build has `kbs` and the SEV token where it has
/// `sev`. A kind that the build lacks is not in it.
pub proof fn lemma_available_text(features: Features)
    ensures
        available_text_spec(features) == (if features.kbs {
            "`cc_kbc`, "@
        } else {
            Seq::empty()
        }) + (if features.sev {
            "`online_sev_kbc`, "@
        } else {
            Seq::empty()
        }) + "`offline_fs_kbc`"@,
{
    reveal_strlit("`");
    reveal_strlit(", ");
    reveal_strlit("cc_kbc");
    reveal_strlit("online_sev_kbc");
    reveal_strlit("offline_fs_kbc");
    reveal_strlit("`cc_kbc`, ");
    reveal_strlit("`online_sev_kbc`, ");
    reveal_strlit("`offline_fs_kbc`");
    reveal_with_fuel(kinds_text_spec, 4);
    let kinds = available_kinds_spec(features);
    let networked = quoted_token(BackendKind::NetworkedConfidential) + ", "@;
    let sev = quoted_token(BackendKind::HardwareSev) + ", "@;
    let offline = quoted_token(BackendKind::OfflineFilesystem);
    assert(networked =~= "`cc_kbc`, "@);
    assert(sev =~= "`online_sev_kbc`, "@);
    assert(offline =~= "`offline_fs_kbc`"@);
    if features.kbs && features.sev {
        assert(kinds.drop_last() =~= seq![
            BackendKind::NetworkedConfidential,
            BackendKind::HardwareSev,
        ]);
        assert(kinds.drop_last().drop_last() =~= seq![BackendKind::NetworkedConfidential]);
        assert(kinds_text_spec(kinds) =~= networked + sev + offline);
    } else if features.kbs {
        assert(kinds.drop_last() =~= seq![BackendKind::NetworkedConfidential]);
        assert(kinds_text_spec(kinds) =~= networked + Seq::<char>::empty() + offline);
    } else if features.sev {
        assert(kinds.drop_last() =~= seq![BackendKind::HardwareSev]);
        assert(kinds_text_spec(kinds) =~= Seq::<char>::empty() + sev + offline);
    } else {
        assert(kinds_text_spec(kinds) =~= Seq::<char>::empty() + Seq::<char>::empty() + offline);
    }
}

/// The three tokens differ, so a token names one kind at most: the kind that
/// a token selects is the only one whose token it is.
pub proof fn lemma_token_names_one_kind(token: Seq<char>, features: Features, kind: BackendKind)
    ensures
        kind_of(token, features) == Some(kind) <==> token == kind.token_spec()
            && kind.available_spec(features),
{
    reveal_strlit("cc_kbc");
    reveal_strlit("online_sev_kbc");
    reveal_strlit("offline_fs_kbc");
    assert("cc_kbc"@.len() == 6);
    assert("online_sev_kbc"@.len() == 14);
    assert("offline_fs_kbc"@.len() == 14);
    assert("online_sev_kbc"@[1] == 'n');
    assert("offline_fs_kbc"@[1] == 'f');
}

} // verus!

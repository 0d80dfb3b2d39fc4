//! The server's configuration and the decisions taken on it.

use vstd::prelude::*;
use vstd::std_specs::cmp::PartialEqSpec;
use vstd::string::StringExecFns;

verus! {

/// Configuration for the tool.
///
/// Two configurations are equal (`==`) when they listen on the same address.
#[derive(Clone, Debug)]
pub struct Config {
    pub listen_address: String,
    pub cert_file: String,
    pub key_file: String,
    pub allowed_cert_thumbprints: Vec<String>,
    pub host_by_thumbprint: bool,
    pub host_by_cert: bool,
    pub auth_ssl: bool,
    pub active: bool,
    pub runtime_worker_threads: usize,
    pub runtime_worker_blocking_threads: usize,
    pub auth_key: Vec<String>,
    pub debug: bool,
}

impl Config {
    /// A configuration is valid once it is active.
    pub open spec fn spec_is_valid(self) -> bool {
        self.active
    }

    /// The configuration after it has been reported: the same, but active.
    pub open spec fn spec_reported(self) -> Config {
        Config { active: true, ..self }
    }

    /// Two configurations are the same configuration when their listen addresses agree.
    pub open spec fn spec_same(self, other: Config) -> bool {
        self.listen_address@ == other.listen_address@
    }
}

/// Helper for the configuration object.
pub trait ConfigHelper {
    /// Marks the configuration as checked and active, and gives it back.
    fn validate_report_config(&mut self) -> &Config;

    /// Whether the configuration may be used to start the server.
    fn is_config_valid(&self) -> bool;
}

impl ConfigHelper for Config {
    fn is_config_valid(&self) -> (valid: bool)
        ensures
            valid == self.spec_is_valid(),
    {
        if self.active {
            return true;
        }
        false
    }

    fn validate_report_config(&mut self) -> (cfg: &Config)
        ensures
            *final(self) == old(self).spec_reported(),
            *cfg == old(self).spec_reported(),
    {
        self.active = true;
        self
    }
}

impl PartialEq for Config {
    fn eq(&self, other: &Self) -> (same: bool) {
        self.listen_address == other.listen_address
    }
}

impl vstd::std_specs::cmp::PartialEqSpecImpl for Config {
    open spec fn obeys_eq_spec() -> bool {
        true
    }

    open spec fn eq_spec(&self, other: &Config) -> bool {
        self.spec_same(*other)
    }
}

impl Eq for Config {

}

/// The texts of a sequence of strings, one after another.
pub open spec fn concat_texts(parts: Seq<String>) -> Seq<char>
    decreases parts.len(),
{
    if parts.len() == 0 {
        seq![]
    } else {
        concat_texts(parts.drop_last()) + parts.last()@
    }
}

impl Config {
    /// The password that decrypts client data: the parts of `auth_key` joined
    /// with nothing between them.
    pub fn auth_password(&self) -> (password: String)
        ensures
            password@ == concat_texts(self.auth_key@),
    {
        let mut password = String::new();
        let n: usize = self.auth_key.len();
        let mut i: usize = 0;
        while i < n
            invariant
                n == self.auth_key@.len(),
                i <= n,
                password@ == concat_texts(self.auth_key@.take(i as int)),
            decreases n - i,
        {
            password.append(self.auth_key[i].as_str());
            assert(self.auth_key@.take(i + 1).drop_last() =~= self.auth_key@.take(i as int));
            i = i + 1;
        }
        assert(self.auth_key@.take(n as int) =~= self.auth_key@);
        password
    }
}

/// What the command line asks for: `--config_file <path>` and `--help`.
#[derive(Clone, Debug)]
pub enum CommandLineAction {
    /// Read the configuration from this file.
    LoadConfigFile(String),
    /// Print the usage line and stop.
    ShowHelp,
    /// Neither argument was given: report that no configuration file was supplied.
    MissingConfigFile,
}

impl Config {
    /// Decides what to do with the parsed `--config_file` and `--help` arguments:
    /// a configuration file wins over a help request.
    pub fn command_line_action(config_file: Option<String>, help: Option<String>) -> (action:
        CommandLineAction)
        ensures
            match config_file {
                Some(path) => action == CommandLineAction::LoadConfigFile(path),
                None => match help {
                    Some(_) => action == CommandLineAction::ShowHelp,
                    None => action == CommandLineAction::MissingConfigFile,
                },
            },
    {
        if let Some(conf_file) = config_file {
            CommandLineAction::LoadConfigFile(conf_file)
        } else if let Some(_helparg) = help {
            CommandLineAction::ShowHelp
        } else {
            CommandLineAction::MissingConfigFile
        }
    }
}

/// Law: reporting a configuration makes it valid, leaves it the same
/// configuration (same listen address), and reporting it again changes nothing.
pub proof fn law_reported_config_is_valid(c: Config)
    ensures
        c.spec_reported().spec_is_valid(),
        c.spec_reported().spec_same(c),
        c.spec_reported().spec_reported() == c.spec_reported(),
{
}

/// Law: a configuration is valid exactly when it is active, whatever else it holds.
pub proof fn law_validity_is_activity(c: Config, d: Config)
    requires
        c.active == d.active,
    ensures
        c.spec_is_valid() == d.spec_is_valid(),
{
}

/// Law: equality of configurations (`==`) is an equivalence relation.
pub proof fn law_config_eq_is_equivalence(a: Config, b: Config, c: Config)
    ensures
        a.spec_same(a),
        a.spec_same(b) == b.spec_same(a),
        a.spec_same(b) && b.spec_same(c) ==> a.spec_same(c),
{
}

/// Law: reporting a configuration changes its `active` flag and nothing else:
/// the reported configuration is active, and every other field is the input's.
pub proof fn law_report_changes_only_active(c: Config)
    ensures
        c.spec_reported().active,
        c.spec_reported().listen_address == c.listen_address,
        c.spec_reported().cert_file == c.cert_file,
        c.spec_reported().key_file == c.key_file,
        c.spec_reported().allowed_cert_thumbprints == c.allowed_cert_thumbprints,
        c.spec_reported().host_by_thumbprint == c.host_by_thumbprint,
        c.spec_reported().host_by_cert == c.host_by_cert,
        c.spec_reported().auth_ssl == c.auth_ssl,
        c.spec_reported().runtime_worker_threads == c.runtime_worker_threads,
        c.spec_reported().runtime_worker_blocking_threads == c.runtime_worker_blocking_threads,
        c.spec_reported().auth_key == c.auth_key,
        c.spec_reported().debug == c.debug,
{
}

/// Law: `==` on configurations holds exactly when their listen addresses hold
/// the same text, whatever their other fields hold.
pub proof fn law_config_eq_is_listen_address(a: Config, b: Config)
    ensures
        a.eq_spec(&b) <==> a.listen_address@ == b.listen_address@,
        Config::obeys_eq_spec(),
{
}

/// Law: the decryption password of no parts is empty, and adding a part to the
/// end of `auth_key` adds exactly that part's text to the end of the password;
/// so the password is every part, in order, with nothing between them.
pub proof fn law_password_appends_parts(parts: Seq<String>, part: String)
    ensures
        concat_texts(Seq::<String>::empty()) == Seq::<char>::empty(),
        concat_texts(parts.push(part)) == concat_texts(parts) + part@,
        concat_texts(seq![part]) == part@,
{
    assert(parts.push(part).drop_last() =~= parts);
    assert(seq![part].drop_last() =~= Seq::<String>::empty());
    assert(Seq::<char>::empty() + part@ =~= part@);
}

/// Law: the password is as long as all the parts together.
pub proof fn law_password_length(parts: Seq<String>)
    ensures
        concat_texts(parts).len() == parts.fold_left(0nat, |n: nat, s: String| n + s@.len()),
    decreases parts.len(),
{
    if parts.len() > 0 {
        law_password_length(parts.drop_last());
    }
}

} // verus!

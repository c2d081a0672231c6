//! The configuration of the services, from the variables of the environment.
use vstd::prelude::*;

use crate::search::{blank, is_blank, trim, trimmed};
use crate::text::{chars_of, lower, same, string_of, text_option, to_lower};
use crate::web::{normal_url, url_normal};

verus! {

/// The variables of the environment that the services read, as far as they are
/// set.
pub struct Environment {
    pub base_url: Option<String>,
    pub database_path: Option<String>,
    pub log_directory: Option<String>,
    pub github_client_id: Option<String>,
    pub github_client_secret: Option<String>,
    pub github_app_id: Option<String>,
    pub github_app_private_key: Option<String>,
    pub github_app_slug: Option<String>,
    pub github_webhook_secret: Option<String>,
    pub github_webhook_active: Option<String>,
    pub session_secret: Option<String>,
    pub encryption_key: Option<String>,
    pub manager_url: Option<String>,
    pub manager_token: Option<String>,
    pub runner_network: Option<String>,
    pub runner_image: Option<String>,
    pub api_bind: Option<String>,
    pub manager_bind: Option<String>,
}

/// The configuration of the services.
pub struct Config {
    pub base_url: String,
    pub database_path: String,
    pub log_directory: String,
    pub github_client_id: Option<String>,
    pub github_client_secret: Option<String>,
    pub github_app_id: Option<String>,
    pub github_app_private_key: Option<String>,
    pub github_app_slug: String,
    pub github_webhook_secret: Option<String>,
    pub github_webhook_active: Option<bool>,
    pub session_secret: Option<String>,
    pub encryption_key: Option<String>,
    pub manager_url: String,
    pub manager_token: Option<String>,
    pub runner_network: String,
    pub runner_image: String,
    pub api_bind: String,
    pub manager_bind: String,
}

/// Why the environment gives no configuration.
#[derive(Debug, Clone, Copy, PartialEq, Eq, Structural)]
pub enum ConfigError {
    BaseUrl,
    WebhookActive,
    ManagerUrl,
    SecretsRequired,
}

impl ConfigError {
    /// The message of the error.
    pub open spec fn text(self) -> Seq<char> {
        match self {
            ConfigError::BaseUrl => "GRIDOPS_BASE_URL must be a URL"@,
            ConfigError::WebhookActive => "GRIDOPS_GITHUB_WEBHOOK_ACTIVE must be true or false"@,
            ConfigError::ManagerUrl => "GRIDOPS_MANAGER_URL must be a URL"@,
            ConfigError::SecretsRequired =>
                "GRIDOPS_SESSION_SECRET and GRIDOPS_ENCRYPTION_KEY are required"@,
        }
    }

    /// The message of the error.
    pub fn message(&self) -> (r: &'static str)
        ensures
            r@ == self.text(),
    {
        match self {
            ConfigError::BaseUrl => "GRIDOPS_BASE_URL must be a URL",
            ConfigError::WebhookActive => "GRIDOPS_GITHUB_WEBHOOK_ACTIVE must be true or false",
            ConfigError::ManagerUrl => "GRIDOPS_MANAGER_URL must be a URL",
            ConfigError::SecretsRequired =>
                "GRIDOPS_SESSION_SECRET and GRIDOPS_ENCRYPTION_KEY are required",
        }
    }
}

// ---------------------------------------------------------------------------
// Reading variables

/// The value of a variable; its default where it is not set.
pub open spec fn or_default(value: Option<Seq<char>>, default: Seq<char>) -> Seq<char> {
    match value {
        Some(text) => text,
        None => default,
    }
}

/// The value of a variable that counts as not set where it is blank.
pub open spec fn not_blank(value: Option<Seq<char>>) -> Option<Seq<char>> {
    match value {
        Some(text) => if blank(text) {
            None
        } else {
            Some(text)
        },
        None => None,
    }
}

/// The truth value that a text stands for.
pub open spec fn truth(text: Seq<char>) -> Option<bool> {
    let word = lower(trimmed(text));
    if word == "true"@ || word == "1"@ || word == "yes"@ || word == "on"@ {
        Some(true)
    } else if word == "false"@ || word == "0"@ || word == "no"@ || word == "off"@ {
        Some(false)
    } else {
        None
    }
}

/// A text with each backslash that is followed by an `n` replaced, together
/// with it, by a line feed.
pub open spec fn with_line_feeds(s: Seq<char>) -> Seq<char>
    decreases s.len(),
{
    if s.len() == 0 {
        Seq::empty()
    } else if s.len() > 1 && s[0] == '\\' && s[1] == 'n' {
        seq!['\n'] + with_line_feeds(s.skip(2))
    } else {
        seq![s[0]] + with_line_feeds(s.skip(1))
    }
}

fn value_or(value: &Option<String>, default: &str) -> (r: String)
    ensures
        r@ == or_default(text_option(*value), default@),
{
    match value {
        Some(text) => text.clone(),
        None => default.to_owned(),
    }
}

/// The value of a variable that counts as not set where it is blank.
pub fn optional(value: &Option<String>) -> (r: Option<String>)
    ensures
        text_option(r) == not_blank(text_option(*value)),
{
    match value {
        Some(text) => if is_blank(text.as_str()) {
            None
        } else {
            Some(text.clone())
        },
        None => None,
    }
}

/// The truth value of a variable: nothing where it is not set or blank, an
/// error where it is neither true nor false.
pub fn optional_bool(value: &Option<String>) -> (r: Result<Option<bool>, ConfigError>)
    ensures
        match not_blank(text_option(*value)) {
            None => r == Ok::<Option<bool>, ConfigError>(None),
            Some(text) => match truth(text) {
                Some(flag) => r == Ok::<Option<bool>, ConfigError>(Some(flag)),
                None => r == Err::<Option<bool>, ConfigError>(ConfigError::WebhookActive),
            },
        },
{
    match optional(value) {
        None => Ok(None),
        Some(text) => {
            let word: String = to_lower(trim(text.as_str()).as_str());
            let w: &str = word.as_str();
            if same(w, "true") || same(w, "1") || same(w, "yes") || same(w, "on") {
                Ok(Some(true))
            } else if same(w, "false") || same(w, "0") || same(w, "no") || same(w, "off") {
                Ok(Some(false))
            } else {
                Err(ConfigError::WebhookActive)
            }
        },
    }
}

/// The string with each backslash and `n` replaced by a line feed.
pub fn unescape_line_feeds(value: &str) -> (r: String)
    ensures
        r@ == with_line_feeds(value@),
{
    let a: Vec<char> = chars_of(value);
    let length: usize = a.len();
    let mut out: Vec<char> = Vec::new();
    let mut i: usize = 0;
    proof {
        assert(a@.skip(0) =~= a@);
        assert(out@ + with_line_feeds(a@.skip(0)) =~= with_line_feeds(a@));
    }
    while i < length
        invariant
            i <= length,
            length == a@.len(),
            out@ + with_line_feeds(a@.skip(i as int)) == with_line_feeds(a@),
        decreases length - i,
    {
        let ghost rest = a@.skip(i as int);
        let ghost before = out@;
        proof {
            assert(rest[0] == a@[i as int]);
            assert(rest.skip(1) =~= a@.skip(i + 1));
            if i + 1 < length {
                assert(rest[1] == a@[i + 1]);
                assert(rest.skip(2) =~= a@.skip(i + 2));
            }
        }
        if i + 1 < length && a[i] == '\\' && a[i + 1] == 'n' {
            out.push('\n');
            i += 2;
        } else {
            out.push(a[i]);
            i += 1;
        }
        proof {
            assert(out@ + with_line_feeds(a@.skip(i as int)) =~= before + with_line_feeds(rest));
        }
    }
    proof {
        assert(out@ + with_line_feeds(a@.skip(i as int)) =~= out@);
    }
    string_of(out.as_slice())
}

/// The characters of an optional string slice.
pub open spec fn str_option(value: Option<&str>) -> Option<Seq<char>> {
    match value {
        Some(text) => Some(text@),
        None => None,
    }
}

fn borrowed(value: &Option<String>) -> (r: Option<&str>)
    ensures
        str_option(r) == text_option(*value),
{
    match value {
        Some(text) => Some(text.as_str()),
        None => None,
    }
}

// ---------------------------------------------------------------------------
// The configuration

/// Why variables give no configuration, for the normal forms of the two
/// addresses.
pub open spec fn environment_error(
    base: Option<Seq<char>>,
    webhook_active: Option<Seq<char>>,
    manager: Option<Seq<char>>,
) -> Option<ConfigError> {
    if base is None {
        Some(ConfigError::BaseUrl)
    } else if not_blank(webhook_active) is Some && truth(not_blank(webhook_active)->0) is None {
        Some(ConfigError::WebhookActive)
    } else if manager is None {
        Some(ConfigError::ManagerUrl)
    } else {
        None
    }
}

impl Config {
    /// The configuration is the one of these variables, with the given normal
    /// forms of the two addresses.
    pub open spec fn reads(&self, env: &Environment, base: Seq<char>, manager: Seq<char>) -> bool {
        &&& self.base_url@ == base
        &&& self.manager_url@ == manager
        &&& self.database_path@ == or_default(
            text_option(env.database_path),
            "./data/gridops.sqlite"@,
        )
        &&& self.log_directory@ == or_default(text_option(env.log_directory), "./data/logs"@)
        &&& text_option(self.github_client_id) == not_blank(text_option(env.github_client_id))
        &&& text_option(self.github_client_secret) == not_blank(
            text_option(env.github_client_secret),
        )
        &&& text_option(self.github_app_id) == not_blank(text_option(env.github_app_id))
        &&& text_option(self.github_app_private_key) == match not_blank(
            text_option(env.github_app_private_key),
        ) {
            Some(key) => Some(with_line_feeds(key)),
            None => None,
        }
        &&& self.github_app_slug@ == or_default(text_option(env.github_app_slug), "gridops"@)
        &&& text_option(self.github_webhook_secret) == not_blank(
            text_option(env.github_webhook_secret),
        )
        &&& self.github_webhook_active == match not_blank(text_option(env.github_webhook_active)) {
            Some(text) => truth(text),
            None => None,
        }
        &&& text_option(self.session_secret) == not_blank(text_option(env.session_secret))
        &&& text_option(self.encryption_key) == not_blank(text_option(env.encryption_key))
        &&& text_option(self.manager_token) == not_blank(text_option(env.manager_token))
        &&& self.runner_network@ == or_default(
            text_option(env.runner_network),
            "gridops-runners"@,
        )
        &&& self.runner_image@ == or_default(
            text_option(env.runner_image),
            "ghcr.io/actions/actions-runner:latest"@,
        )
        &&& self.api_bind@ == or_default(text_option(env.api_bind), "0.0.0.0:8080"@)
        &&& self.manager_bind@ == or_default(text_option(env.manager_bind), "127.0.0.1:8788"@)
    }

    /// The configuration of variables, for the normal forms of the addresses of
    /// the control plane and of the manager.
    pub fn from_parts(env: &Environment, base: Option<String>, manager: Option<String>) -> (r:
        Result<Config, ConfigError>)
        ensures
            match environment_error(
                text_option(base),
                text_option(env.github_webhook_active),
                text_option(manager),
            ) {
                Some(error) => r == Err::<Config, ConfigError>(error),
                None => r is Ok && r->Ok_0.reads(env, base->0@, manager->0@),
            },
    {
        let base_url: String = match base {
            Some(url) => url,
            None => {
                return Err(ConfigError::BaseUrl);
            },
        };
        let active: Option<bool> = match optional_bool(&env.github_webhook_active) {
            Ok(active) => active,
            Err(error) => {
                return Err(error);
            },
        };
        let manager_url: String = match manager {
            Some(url) => url,
            None => {
                return Err(ConfigError::ManagerUrl);
            },
        };
        let private_key: Option<String> = match optional(&env.github_app_private_key) {
            Some(key) => Some(unescape_line_feeds(key.as_str())),
            None => None,
        };
        Ok(
            Config {
                base_url,
                database_path: value_or(&env.database_path, "./data/gridops.sqlite"),
                log_directory: value_or(&env.log_directory, "./data/logs"),
                github_client_id: optional(&env.github_client_id),
                github_client_secret: optional(&env.github_client_secret),
                github_app_id: optional(&env.github_app_id),
                github_app_private_key: private_key,
                github_app_slug: value_or(&env.github_app_slug, "gridops"),
                github_webhook_secret: optional(&env.github_webhook_secret),
                github_webhook_active: active,
                session_secret: optional(&env.session_secret),
                encryption_key: optional(&env.encryption_key),
                manager_url,
                manager_token: optional(&env.manager_token),
                runner_network: value_or(&env.runner_network, "gridops-runners"),
                runner_image: value_or(&env.runner_image, "ghcr.io/actions/actions-runner:latest"),
                api_bind: value_or(&env.api_bind, "0.0.0.0:8080"),
                manager_bind: value_or(&env.manager_bind, "127.0.0.1:8788"),
            },
        )
    }

    /// The configuration of the variables of the environment.
    pub fn from_env(env: &Environment) -> (r: Result<Config, ConfigError>)
        ensures
            ({
                let base = url_normal(
                    or_default(text_option(env.base_url), "http://localhost:3000"@),
                );
                let manager = url_normal(
                    or_default(text_option(env.manager_url), "http://localhost:8788"@),
                );
                match environment_error(base, text_option(env.github_webhook_active), manager) {
                    Some(error) => r == Err::<Config, ConfigError>(error),
                    None => r is Ok && r->Ok_0.reads(env, base->0, manager->0),
                }
            }),
    {
        let base: String = value_or(&env.base_url, "http://localhost:3000");
        let manager: String = value_or(&env.manager_url, "http://localhost:8788");
        Config::from_parts(env, normal_url(base.as_str()), normal_url(manager.as_str()))
    }

    /// Whether the configuration has the secrets that the API needs.
    pub fn validate_api(&self) -> (r: Result<(), ConfigError>)
        ensures
            r == if self.session_secret is None || self.encryption_key is None {
                Err::<(), ConfigError>(ConfigError::SecretsRequired)
            } else {
                Ok(())
            },
    {
        if self.session_secret.is_none() || self.encryption_key.is_none() {
            Err(ConfigError::SecretsRequired)
        } else {
            Ok(())
        }
    }

    pub fn base_url(&self) -> (r: &str)
        ensures
            r@ == self.base_url@,
    {
        self.base_url.as_str()
    }

    pub fn database_path(&self) -> (r: &str)
        ensures
            r@ == self.database_path@,
    {
        self.database_path.as_str()
    }

    pub fn log_directory(&self) -> (r: &str)
        ensures
            r@ == self.log_directory@,
    {
        self.log_directory.as_str()
    }

    pub fn github_client_id(&self) -> (r: Option<&str>)
        ensures
            str_option(r) == text_option(self.github_client_id),
    {
        borrowed(&self.github_client_id)
    }

    pub fn github_client_secret(&self) -> (r: Option<&str>)
        ensures
            str_option(r) == text_option(self.github_client_secret),
    {
        borrowed(&self.github_client_secret)
    }

    pub fn github_app_id(&self) -> (r: Option<&str>)
        ensures
            str_option(r) == text_option(self.github_app_id),
    {
        borrowed(&self.github_app_id)
    }

    pub fn github_app_private_key(&self) -> (r: Option<&str>)
        ensures
            str_option(r) == text_option(self.github_app_private_key),
    {
        borrowed(&self.github_app_private_key)
    }

    pub fn github_app_slug(&self) -> (r: &str)
        ensures
            r@ == self.github_app_slug@,
    {
        self.github_app_slug.as_str()
    }

    pub fn github_webhook_secret(&self) -> (r: Option<&str>)
        ensures
            str_option(r) == text_option(self.github_webhook_secret),
    {
        borrowed(&self.github_webhook_secret)
    }

    pub fn github_webhook_active(&self) -> (r: Option<bool>)
        ensures
            r == self.github_webhook_active,
    {
        self.github_webhook_active
    }

    pub fn session_secret(&self) -> (r: Option<&str>)
        ensures
            str_option(r) == text_option(self.session_secret),
    {
        borrowed(&self.session_secret)
    }

    pub fn encryption_key(&self) -> (r: Option<&str>)
        ensures
            str_option(r) == text_option(self.encryption_key),
    {
        borrowed(&self.encryption_key)
    }

    pub fn manager_url(&self) -> (r: &str)
        ensures
            r@ == self.manager_url@,
    {
        self.manager_url.as_str()
    }

    pub fn manager_token(&self) -> (r: Option<&str>)
        ensures
            str_option(r) == text_option(self.manager_token),
    {
        borrowed(&self.manager_token)
    }

    pub fn runner_network(&self) -> (r: &str)
        ensures
            r@ == self.runner_network@,
    {
        self.runner_network.as_str()
    }

    pub fn runner_image(&self) -> (r: &str)
        ensures
            r@ == self.runner_image@,
    {
        self.runner_image.as_str()
    }

    pub fn api_bind(&self) -> (r: &str)
        ensures
            r@ == self.api_bind@,
    {
        self.api_bind.as_str()
    }

    pub fn manager_bind(&self) -> (r: &str)
        ensures
            r@ == self.manager_bind@,
    {
        self.manager_bind.as_str()
    }
}

// ---------------------------------------------------------------------------
// What variables stand for

/// Four words stand for true and four for false, in either case and with white space around
/// them; a blank variable counts as not set.
pub proof fn words_stand_for_truth_values(text: Seq<char>, word: Seq<char>)
    requires
        lower(trimmed(text)) == word,
    ensures
        word == "true"@ || word == "1"@ || word == "yes"@ || word == "on"@ ==> truth(text) == Some(
            true,
        ),
        word == "false"@ || word == "0"@ || word == "no"@ || word == "off"@ ==> truth(text) == Some(
            false,
        ),
        truth(text) is Some ==> word == "true"@ || word == "1"@ || word == "yes"@ || word == "on"@
            || word == "false"@ || word == "0"@ || word == "no"@ || word == "off"@,
        blank(text) ==> not_blank(Some(text)) is None,
        !blank(text) ==> not_blank(Some(text)) == Some(text),
        not_blank(None) is None,
        or_default(Some(text), word) == text,
        or_default(None, word) == word,
{
    reveal_strlit("true");
    reveal_strlit("1");
    reveal_strlit("yes");
    reveal_strlit("on");
    reveal_strlit("false");
    reveal_strlit("0");
    reveal_strlit("no");
    reveal_strlit("off");
    assert("true"@[0] == 't' && "1"@[0] == '1' && "yes"@[0] == 'y' && "on"@[0] == 'o' && "on"@[1]
        == 'n' && "false"@[0] == 'f' && "0"@[0] == '0' && "no"@[0] == 'n' && "off"@[0] == 'o'
        && "off"@[1] == 'f');
}

/// A backslash and an `n` stand for a line feed in a key, and everything else for itself.
pub proof fn line_feeds_are_put_back(front: Seq<char>, rest: Seq<char>)
    requires
        !front.contains('\\'),
    ensures
        with_line_feeds(front + seq!['\\', 'n'] + rest) == front + seq!['\n'] + with_line_feeds(
            rest,
        ),
        with_line_feeds(front) == front,
    decreases front.len(),
{
    let whole = front + seq!['\\', 'n'] + rest;
    if front.len() == 0 {
        assert(whole[0] == '\\' && whole[1] == 'n');
        assert(whole.skip(2) =~= rest);
        assert(front + seq!['\n'] + with_line_feeds(rest) =~= seq!['\n'] + with_line_feeds(rest));
        assert(with_line_feeds(front) =~= front);
    } else {
        let less = front.skip(1);
        assert forall|i: int| 0 <= i < less.len() implies less[i] != '\\' by {
            assert(front.contains(front[i + 1]));
        }
        line_feeds_are_put_back(less, rest);
        assert(front.contains(front[0]));
        assert(whole[0] == front[0]);
        assert(whole.skip(1) =~= less + seq!['\\', 'n'] + rest);
        assert(seq![front[0]] + (less + seq!['\n'] + with_line_feeds(rest)) =~= front + seq!['\n']
            + with_line_feeds(rest));
        assert(seq![front[0]] + less =~= front);
    }
}

/// The environment gives a configuration exactly if both addresses can be read and whether
/// webhooks are delivered is not set or is a truth value.
pub proof fn environments_in_order(
    base: Option<Seq<char>>,
    webhook_active: Option<Seq<char>>,
    manager: Option<Seq<char>>,
)
    ensures
        environment_error(base, webhook_active, manager) is None <==> base is Some && manager is Some
            && (webhook_active is None || blank(webhook_active->0) || truth(webhook_active->0)
            is Some),
        base is None ==> environment_error(base, webhook_active, manager) == Some(
            ConfigError::BaseUrl,
        ),
{
}

/// The configuration holds what the environment sets, and the usual values for the rest.
pub proof fn configurations_hold_what_is_set(
    config: Config,
    env: &Environment,
    base: Seq<char>,
    manager: Seq<char>,
)
    requires
        config.reads(env, base, manager),
    ensures
        config.base_url@ == base,
        config.manager_url@ == manager,
        env.database_path is Some ==> config.database_path@ == env.database_path->0@,
        env.database_path is None ==> config.database_path@ == "./data/gridops.sqlite"@,
        env.log_directory is Some ==> config.log_directory@ == env.log_directory->0@,
        env.log_directory is None ==> config.log_directory@ == "./data/logs"@,
        env.runner_network is Some ==> config.runner_network@ == env.runner_network->0@,
        env.runner_network is None ==> config.runner_network@ == "gridops-runners"@,
        env.runner_image is Some ==> config.runner_image@ == env.runner_image->0@,
        env.github_app_slug is Some ==> config.github_app_slug@ == env.github_app_slug->0@,
        env.api_bind is Some ==> config.api_bind@ == env.api_bind->0@,
        env.manager_bind is Some ==> config.manager_bind@ == env.manager_bind->0@,
        env.session_secret is None ==> config.session_secret is None,
        env.session_secret is Some && blank(env.session_secret->0@) ==> config.session_secret
            is None,
        env.session_secret is Some && !blank(env.session_secret->0@) ==> text_option(
            config.session_secret,
        ) == Some(env.session_secret->0@),
        env.encryption_key is Some && !blank(env.encryption_key->0@) ==> text_option(
            config.encryption_key,
        ) == Some(env.encryption_key->0@),
        env.manager_token is Some && !blank(env.manager_token->0@) ==> text_option(
            config.manager_token,
        ) == Some(env.manager_token->0@),
        env.github_client_id is Some && !blank(env.github_client_id->0@) ==> text_option(
            config.github_client_id,
        ) == Some(env.github_client_id->0@),
        env.github_client_secret is Some && !blank(env.github_client_secret->0@) ==> text_option(
            config.github_client_secret,
        ) == Some(env.github_client_secret->0@),
        env.github_app_id is Some && !blank(env.github_app_id->0@) ==> text_option(
            config.github_app_id,
        ) == Some(env.github_app_id->0@),
        env.github_webhook_secret is Some && !blank(env.github_webhook_secret->0@) ==> text_option(
            config.github_webhook_secret,
        ) == Some(env.github_webhook_secret->0@),
{
}

}

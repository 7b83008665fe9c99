//! Settings of the server, from the values of its environment variables.

use vstd::prelude::*;
use crate::text::{to_lowercase, spec_to_lowercase, trim, spec_trim, string_from_chars};
use crate::assistant::str_is;
use crate::validation::opt_string_view;
use vstd::string::StringExecFns;

verus! {

/// Settings of the server.
pub struct Config {
    pub database_url: String,
    pub jwt_secret: String,
    pub cors_origin: String,
    pub gemini_api_key: Option<String>,
    pub gemini_model: String,
    pub bot_directive: String,
    pub initial_admin_email: Option<String>,
    pub initial_admin_password: Option<String>,
    pub cookie_secure: bool,
    pub resend_api_key: String,
    pub base_url: String,
    pub google_client_id: Option<String>,
    pub google_client_secret: Option<String>,
    pub google_redirect_uri: Option<String>,
}

/// The value of a variable, or its default when it is not set.
pub open spec fn or_default(v: Option<Seq<char>>, default: Seq<char>) -> Seq<char> {
    match v {
        Some(s) => s,
        None => default,
    }
}

/// Cookies carry `Secure` unless `COOKIE_SECURE` is set to something other than `true`
/// (in any case).
pub open spec fn spec_cookie_secure(v: Option<Seq<char>>) -> bool {
    match v {
        Some(s) => spec_to_lowercase(s) == "true"@,
        None => true,
    }
}

fn value_or(v: Option<String>, default: &str) -> (r: String)
    ensures
        r@ == or_default(opt_string_view(&v), default@),
{
    match v {
        Some(s) => s,
        None => String::from_str(default),
    }
}

impl Config {
    /// The settings from the values of the environment variables (`None` for a variable
    /// that is not set) and the assistant's directive: the CORS origin and the base URL
    /// default to the local frontend, the Gemini model to `gemini-flash-latest`, the
    /// e-mail key to a mock key.
    pub fn from_env_values(
        database_url: String,
        jwt_secret: String,
        cors_origin: Option<String>,
        gemini_api_key: Option<String>,
        gemini_model: Option<String>,
        bot_directive: String,
        initial_admin_email: Option<String>,
        initial_admin_password: Option<String>,
        cookie_secure: Option<String>,
        resend_api_key: Option<String>,
        base_url: Option<String>,
        google_client_id: Option<String>,
        google_client_secret: Option<String>,
        google_redirect_uri: Option<String>,
    ) -> (r: Config)
        ensures
            r.database_url == database_url,
            r.jwt_secret == jwt_secret,
            r.cors_origin@ == or_default(opt_string_view(&cors_origin), "http://localhost:5173"@),
            r.gemini_api_key == gemini_api_key,
            r.gemini_model@ == or_default(opt_string_view(&gemini_model), "gemini-flash-latest"@),
            r.bot_directive == bot_directive,
            r.initial_admin_email == initial_admin_email,
            r.initial_admin_password == initial_admin_password,
            r.cookie_secure == spec_cookie_secure(opt_string_view(&cookie_secure)),
            r.resend_api_key@ == or_default(opt_string_view(&resend_api_key), "mock_key"@),
            r.base_url@ == or_default(opt_string_view(&base_url), "http://localhost:5173"@),
            r.google_client_id == google_client_id,
            r.google_client_secret == google_client_secret,
            r.google_redirect_uri == google_redirect_uri,
    {
        let secure = match &cookie_secure {
            Some(v) => {
                let l = to_lowercase(v.as_str());
                str_is(l.as_str(), "true")
            },
            None => true,
        };
        Config {
            database_url,
            jwt_secret,
            cors_origin: value_or(cors_origin, "http://localhost:5173"),
            gemini_api_key,
            gemini_model: value_or(gemini_model, "gemini-flash-latest"),
            bot_directive,
            initial_admin_email,
            initial_admin_password,
            cookie_secure: secure,
            resend_api_key: value_or(resend_api_key, "mock_key"),
            base_url: value_or(base_url, "http://localhost:5173"),
            google_client_id,
            google_client_secret,
            google_redirect_uri,
        }
    }
}

/// The assistant's directive: the trimmed contents of the file named by
/// `BOT_DIRECTIVE_PATH` when it could be read, else the built-in directive.
pub fn directive_from_file(file_contents: Option<String>, built_in: &str) -> (r: String)
    ensures
        r@ == (match file_contents {
            Some(c) => spec_trim(c@),
            None => built_in@,
        }),
{
    match file_contents {
        Some(c) => {
            let t = trim(c.as_str());
            string_from_chars(t.as_slice())
        },
        None => String::from_str(built_in),
    }
}

/// Which origins may call the API with credentials: any (`*`, then without
/// credentials), a list (the setting holds commas; each piece trimmed), or one.
pub enum CorsOrigins {
    Any,
    List(Vec<String>),
    Single(String),
}

/// The pieces of `s` between commas.
pub open spec fn comma_pieces(s: Seq<char>) -> Seq<Seq<char>> {
    crate::oauth::split_on(s, ',')
}

/// Reads the CORS setting.
pub fn cors_origins(setting: &str) -> (r: CorsOrigins)
    ensures
        spec_trim(setting@) == "*"@ ==> r is Any,
        spec_trim(setting@) != "*"@ && crate::text::index_of(spec_trim(setting@), ',') >= 0 ==> (r matches CorsOrigins::List(v)
            && v@.len() == comma_pieces(spec_trim(setting@)).len()
            && forall|i: int| 0 <= i < v@.len() ==> (#[trigger] v@[i])@ == spec_trim(comma_pieces(spec_trim(setting@))[i])),
        spec_trim(setting@) != "*"@ && crate::text::index_of(spec_trim(setting@), ',') < 0 ==> (r matches CorsOrigins::Single(o)
            && o@ == spec_trim(setting@)),
{
    let t = trim(setting);
    let star: Vec<char> = vec!['*'];
    proof {
        reveal_strlit("*");
        assert(star@ =~= "*"@);
    }
    if crate::assistant::chars_equal(t.as_slice(), star.as_slice()) {
        return CorsOrigins::Any;
    }
    let comma = crate::text::find_char_from(t.as_slice(), ',', 0);
    proof {
        assert(t@.skip(0) =~= t@);
    }
    match comma {
        Some(_) => {
            let pieces = crate::oauth::split_chars(t.as_slice(), ',');
            let mut out: Vec<String> = Vec::new();
            let mut i: usize = 0;
            while i < pieces.len()
                invariant
                    i <= pieces@.len(),
                    pieces@.map_values(|w: Vec<char>| w@) == comma_pieces(t@),
                    out@.len() == i,
                    forall|k: int| 0 <= k < i ==> (#[trigger] out@[k])@ == spec_trim(comma_pieces(t@)[k]),
                decreases pieces@.len() - i,
            {
                assert(pieces@.map_values(|w: Vec<char>| w@)[i as int] == pieces@[i as int]@);
                let p = crate::text::trim_chars(pieces[i].as_slice());
                out.push(string_from_chars(p.as_slice()));
                i = i + 1;
            }
            CorsOrigins::List(out)
        },
        None => CorsOrigins::Single(string_from_chars(t.as_slice())),
    }
}

} // verus!

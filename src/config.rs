//! The client's configuration: the instance to connect to, the account, and
//! the accent colour.
use vstd::prelude::*;

verus! {

/// Accent colours that the configuration can name.
#[derive(Clone, Copy, Debug, PartialEq, Eq, Structural)]
pub enum Color {
    Red,
    Green,
    Blue,
    Yellow,
    Magenta,
    Cyan,
    LightRed,
    LightGreen,
    LightYellow,
    LightBlue,
    LightMagenta,
    LightCyan,
}

/// The name by which the configuration writes a colour.
pub open spec fn color_name(c: Color) -> Seq<char> {
    match c {
        Color::Red => "Red"@,
        Color::Green => "Green"@,
        Color::Blue => "Blue"@,
        Color::Yellow => "Yellow"@,
        Color::Magenta => "Magenta"@,
        Color::Cyan => "Cyan"@,
        Color::LightRed => "LightRed"@,
        Color::LightGreen => "LightGreen"@,
        Color::LightYellow => "LightYellow"@,
        Color::LightBlue => "LightBlue"@,
        Color::LightMagenta => "LightMagenta"@,
        Color::LightCyan => "LightCyan"@,
    }
}

impl Default for Color {
    fn default() -> (r: Color)
        ensures
            r == Color::LightMagenta,
    {
        Color::LightMagenta
    }
}

fn same_text(s: &str, t: &str) -> (r: bool)
    ensures
        r == (s@ == t@),
{
    let n = s.unicode_len();
    if n != t.unicode_len() {
        return false;
    }
    let mut i: usize = 0;
    while i < n
        invariant
            n == s@.len(),
            n == t@.len(),
            0 <= i <= n,
            s@.take(i as int) == t@.take(i as int),
        decreases n - i,
    {
        if s.get_char(i) != t.get_char(i) {
            return false;
        }
        assert(s@.take(i + 1) =~= s@.take(i as int).push(s@[i as int]));
        assert(t@.take(i + 1) =~= t@.take(i as int).push(t@[i as int]));
        i = i + 1;
    }
    assert(s@ =~= s@.take(n as int));
    assert(t@ =~= t@.take(n as int));
    true
}

impl Color {
    /// The colour that a name stands for, if any.
    pub fn from_name(s: &str) -> (r: Option<Color>)
        ensures
            match r {
                Some(c) => s@ == color_name(c),
                None => forall|c: Color| s@ != #[trigger] color_name(c),
            },
    {
        if same_text(s, "Red") {
            Some(Color::Red)
        } else if same_text(s, "Green") {
            Some(Color::Green)
        } else if same_text(s, "Blue") {
            Some(Color::Blue)
        } else if same_text(s, "Yellow") {
            Some(Color::Yellow)
        } else if same_text(s, "Magenta") {
            Some(Color::Magenta)
        } else if same_text(s, "Cyan") {
            Some(Color::Cyan)
        } else if same_text(s, "LightRed") {
            Some(Color::LightRed)
        } else if same_text(s, "LightGreen") {
            Some(Color::LightGreen)
        } else if same_text(s, "LightYellow") {
            Some(Color::LightYellow)
        } else if same_text(s, "LightBlue") {
            Some(Color::LightBlue)
        } else if same_text(s, "LightMagenta") {
            Some(Color::LightMagenta)
        } else if same_text(s, "LightCyan") {
            Some(Color::LightCyan)
        } else {
            None
        }
    }
}

#[derive(Debug)]
pub struct General {
    pub accent_color: Color,
}

#[derive(Debug)]
pub struct Connection {
    pub instance: String,
    pub username: String,
    pub password: String,
}

#[derive(Debug)]
pub struct Config {
    pub connection: Connection,
    pub general: General,
}

/// Why a configuration was refused.
#[derive(Clone, Copy, Debug, PartialEq, Eq, Structural)]
pub enum ConfigError {
    /// The text is not a TOML table.
    Syntax,
    /// There is no `[connection]` table.
    NoConnection,
    /// `connection.username` is missing or not a string.
    NoUsername,
    /// `connection.instance` is missing or not a string.
    NoInstance,
    /// `connection.password` is missing or not a string.
    NoPassword,
    /// There is no `[general]` table.
    NoGeneral,
    /// `general.accent_color` is there but names no colour.
    BadAccentColor,
}

/// A key of the configuration as it was found.
#[derive(Debug)]
pub enum Field {
    Missing,
    Text(String),
    /// Present, but not a string.
    Other,
}

/// What the configuration's tables hold, key by key.
#[derive(Debug)]
pub struct ConfigFields {
    pub connection_table: bool,
    pub instance: Field,
    pub username: Field,
    pub password: Field,
    pub general_table: bool,
    pub accent_color: Field,
}

pub open spec fn text_of(f: Field) -> Option<Seq<char>> {
    match f {
        Field::Text(s) => Some(s@),
        _ => None,
    }
}

/// Whether a field can give an accent colour: a missing key or a colour's name.
pub open spec fn accent_ok(f: Field) -> bool {
    match f {
        Field::Missing => true,
        Field::Text(s) => exists|c: Color| s@ == #[trigger] color_name(c),
        Field::Other => false,
    }
}

/// Whether `c` is the accent colour that a field gives: light magenta where
/// the key is missing, else the colour it names.
pub open spec fn accent_is(f: Field, c: Color) -> bool {
    match f {
        Field::Missing => c == Color::LightMagenta,
        Field::Text(s) => s@ == color_name(c),
        Field::Other => false,
    }
}

/// The error a set of fields gives, checked in order, or `None` if it is valid.
pub open spec fn fields_error(f: ConfigFields) -> Option<ConfigError> {
    if !f.connection_table {
        Some(ConfigError::NoConnection)
    } else if text_of(f.username) is None {
        Some(ConfigError::NoUsername)
    } else if text_of(f.instance) is None {
        Some(ConfigError::NoInstance)
    } else if text_of(f.password) is None {
        Some(ConfigError::NoPassword)
    } else if !f.general_table {
        Some(ConfigError::NoGeneral)
    } else if !accent_ok(f.accent_color) {
        Some(ConfigError::BadAccentColor)
    } else {
        None
    }
}

fn field_text(f: Field) -> (r: Option<String>)
    ensures
        match r {
            Some(s) => text_of(f) == Some(s@),
            None => text_of(f) is None,
        },
{
    match f {
        Field::Text(s) => Some(s),
        _ => None,
    }
}

/// Relies on `toml::from_str`, which reads a whole document into a table,
/// and on whether it accepts a text depending on that text alone.
pub uninterp spec fn toml_table_accepts(text: Seq<char>) -> bool;

/// toml's table type, carried through opaque.
#[verifier::external_type_specification]
#[verifier::external_body]
#[verifier::reject_recursive_types(K)]
#[verifier::reject_recursive_types(V)]
pub struct ExTomlMap<K, V>(toml::map::Map<K, V>);

/// A TOML value, carried through opaque.
#[verifier::external_type_specification]
#[verifier::external_body]
pub struct ExTomlValue(toml::Value);

/// toml's parse error, carried through opaque.
#[verifier::external_type_specification]
#[verifier::external_body]
pub struct ExTomlError(toml::de::Error);

/// Relies on `toml::from_str::<toml::Table>`: reads the text as a TOML document.
#[verifier::external_body]
fn parse_table(text: &str) -> (r: Result<toml::Table, toml::de::Error>)
    ensures
        r is Ok == toml_table_accepts(text@),
{
    toml::from_str::<toml::Table>(text)
}

/// Relies on `toml::map::Map::get`: the value under a key of a table.
#[verifier::external_body]
fn table_get<'a>(t: &'a toml::Table, key: &str) -> (r: Option<&'a toml::Value>) {
    t.get(key)
}

/// Relies on `toml::Value::as_table`: the table a value holds, if it is one.
#[verifier::external_body]
fn value_as_table<'a>(v: &'a toml::Value) -> (r: Option<&'a toml::Table>) {
    v.as_table()
}

/// Relies on `toml::Value::as_str`: the string a value holds, if it is one.
#[verifier::external_body]
fn value_as_string(v: &toml::Value) -> (r: Option<String>) {
    v.as_str().map(|s| s.to_string())
}

/// The field under `key` of a table, if the table is there.
fn read_field(t: Option<&toml::Table>, key: &str) -> (r: Field) {
    match t {
        Some(t) => match table_get(t, key) {
            Some(v) => match value_as_string(v) {
                Some(s) => Field::Text(s),
                None => Field::Other,
            },
            None => Field::Missing,
        },
        None => Field::Missing,
    }
}

/// The table under `key`, if there is one.
fn read_table<'a>(t: &'a toml::Table, key: &str) -> (r: Option<&'a toml::Table>) {
    match table_get(t, key) {
        Some(v) => value_as_table(v),
        None => None,
    }
}

impl Config {
    /// Builds a configuration from the fields found in its text. The checks
    /// run in order: the `[connection]` table, its username, instance and
    /// password, the `[general]` table, and its accent colour, which
    /// defaults to light magenta where it is not given.
    pub fn from_fields(f: ConfigFields) -> (r: Result<Config, ConfigError>)
        ensures
            match r {
                Ok(c) => {
                    &&& fields_error(f) is None
                    &&& text_of(f.instance) == Some(c.connection.instance@)
                    &&& text_of(f.username) == Some(c.connection.username@)
                    &&& text_of(f.password) == Some(c.connection.password@)
                    &&& accent_is(f.accent_color, c.general.accent_color)
                },
                Err(e) => fields_error(f) == Some(e),
            },
    {
        if !f.connection_table {
            return Err(ConfigError::NoConnection);
        }
        let username = match field_text(f.username) {
            Some(s) => s,
            None => {
                return Err(ConfigError::NoUsername);
            },
        };
        let instance = match field_text(f.instance) {
            Some(s) => s,
            None => {
                return Err(ConfigError::NoInstance);
            },
        };
        let password = match field_text(f.password) {
            Some(s) => s,
            None => {
                return Err(ConfigError::NoPassword);
            },
        };
        if !f.general_table {
            return Err(ConfigError::NoGeneral);
        }
        let accent_color = match f.accent_color {
            Field::Missing => Color::LightMagenta,
            Field::Text(s) => match Color::from_name(s.as_str()) {
                Some(c) => c,
                None => {
                    return Err(ConfigError::BadAccentColor);
                },
            },
            Field::Other => {
                return Err(ConfigError::BadAccentColor);
            },
        };
        Ok(
            Config {
                connection: Connection { instance, username, password },
                general: General { accent_color },
            },
        )
    }

    /// Reads a configuration from the text of its TOML file.
    pub fn init(text: &str) -> (r: Result<Config, ConfigError>)
        ensures
            (r == Err::<Config, ConfigError>(ConfigError::Syntax)) == !toml_table_accepts(text@),
    {
        let table = match parse_table(text) {
            Ok(t) => t,
            Err(_) => {
                return Err(ConfigError::Syntax);
            },
        };
        let connection = read_table(&table, "connection");
        let general = read_table(&table, "general");
        let fields = ConfigFields {
            connection_table: connection.is_some(),
            instance: read_field(connection, "instance"),
            username: read_field(connection, "username"),
            password: read_field(connection, "password"),
            general_table: general.is_some(),
            accent_color: read_field(general, "accent_color"),
        };
        Config::from_fields(fields)
    }
}

} // verus!

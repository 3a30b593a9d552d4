//! User provider rows: the open half of the provider catalogue.
//!
//! A document holds rows by id. It is taken whole or refused whole, with the
//! reason; a refused, unreadable or unchanged document leaves the rows that are
//! live as they are, and a missing file retires them.
use crate::numbers::{decimal, decimal_text};
use crate::text::{
    ascii_lower, belongs, chars_of, is_white, join, joined, lemma_blank, lemma_join_first,
    lower_chars, same_chars, same_text, text_of, texts_of, trim, trimmed, words_of, CharClass,
};
use crate::wire::{text3, text5, text7, text_view};
use vstd::prelude::*;
use vstd::utf8::encode_utf8;

verus! {

/// The file inside the runtime directory.
pub const PROVIDERS_FILE: &'static str = "providers.json";

/// The largest provider file that is read, in bytes.
pub const MAX_PROVIDERS_FILE_BYTES: u64 = 1024 * 1024;

/// The most rows that one document may hold.
pub const MAX_PROVIDERS: usize = 64;

/// The longest provider id, in bytes.
pub const MAX_PROVIDER_ID_BYTES: usize = 64;

/// The longest `label`, in bytes.
pub const MAX_PROVIDER_LABEL_BYTES: usize = 200;

/// The longest `description`, in bytes.
pub const MAX_PROVIDER_DESCRIPTION_BYTES: usize = 2 * 1024;

/// The most argv elements that one row's `command` may carry.
pub const MAX_PROVIDER_COMMAND_ARGS: usize = 32;

/// The longest argv element, in bytes.
pub const MAX_PROVIDER_COMMAND_ARG_BYTES: usize = 4 * 1024;

/// The most `env` entries that one row may carry.
pub const MAX_PROVIDER_ENV_ENTRIES: usize = 32;

/// The longest env key or value, in bytes.
pub const MAX_PROVIDER_ENV_BYTES: usize = 4 * 1024;

/// One user provider row: how a local process is started. The env entries stand
/// in ascending order of their keys.
#[derive(Debug)]
pub struct UserProviderRow {
    pub extends: Option<String>,
    pub label: Option<String>,
    pub description: Option<String>,
    pub command: Option<Vec<String>>,
    pub env: Option<Vec<(String, String)>>,
}

/// `UserProviderRow` over the characters of its texts.
pub ghost struct RowView {
    pub extends: Option<Seq<char>>,
    pub label: Option<Seq<char>>,
    pub description: Option<Seq<char>>,
    pub command: Option<Seq<Seq<char>>>,
    pub env: Option<Seq<(Seq<char>, Seq<char>)>>,
}

impl View for UserProviderRow {
    type V = RowView;

    open spec fn view(&self) -> RowView {
        RowView {
            extends: text_view(self.extends),
            label: text_view(self.label),
            description: text_view(self.description),
            command: match self.command {
                Some(c) => Some(texts_of(c@)),
                None => None,
            },
            env: match self.env {
                Some(e) => Some(e@.map_values(|p: (String, String)| (p.0@, p.1@))),
                None => None,
            },
        }
    }
}

/// The rows of a document over views.
pub open spec fn rows_view(rows: Seq<(String, UserProviderRow)>) -> Seq<(Seq<char>, RowView)> {
    rows.map_values(|r: (String, UserProviderRow)| (r.0@, r.1@))
}

/// The length of a text in UTF-8 bytes.
pub open spec fn byte_len(s: Seq<char>) -> nat {
    encode_utf8(s).len()
}

fn bytes_of(s: &str) -> (n: usize)
    ensures
        n == byte_len(s@),
{
    s.as_bytes().len()
}

fn bytes_text(s: &str) -> (r: String)
    ensures
        r@ == decimal(byte_len(s@)),
{
    decimal_text(bytes_of(s) as u64)
}

/// The ids that `extends` may name: `acp` and the native families.
pub open spec fn extendable_ids(native_ids: Seq<Seq<char>>) -> Seq<char> {
    join(seq!["acp"@] + native_ids, ", "@)
}

pub fn extendable_ids_sentence(native_ids: &[String]) -> (r: String)
    ensures
        r@ == extendable_ids(texts_of(native_ids@)),
{
    let mut names: Vec<Vec<char>> = Vec::new();
    names.push(chars_of("acp"));
    let mut i: usize = 0;
    assert(words_of(names@) =~= seq!["acp"@] + texts_of(native_ids@.take(0)));
    while i < native_ids.len()
        invariant
            i <= native_ids@.len(),
            words_of(names@) == seq!["acp"@] + texts_of(native_ids@.take(i as int)),
        decreases native_ids@.len() - i,
    {
        let ghost before = names@;
        names.push(chars_of(native_ids[i].as_str()));
        i = i + 1;
        assert(words_of(names@) =~= words_of(before).push(native_ids@[i - 1]@));
        assert(words_of(names@) =~= seq!["acp"@] + texts_of(native_ids@.take(i as int)));
    }
    assert(native_ids@.take(i as int) =~= native_ids@);
    let r = joined(names.as_slice(), ", ");
    text_of(r.as_slice())
}

/// A lower-case letter, a digit or a hyphen.
pub open spec fn is_id_char(c: char) -> bool {
    'a' <= c <= 'z' || '0' <= c <= '9' || c == '-'
}

/// `^[a-z][a-z0-9-]*$`, and not too long.
pub open spec fn valid_id(id: Seq<char>) -> bool {
    &&& byte_len(id) <= MAX_PROVIDER_ID_BYTES
    &&& id.len() > 0
    &&& 'a' <= id[0] <= 'z'
    &&& forall|i: int| 0 <= i < id.len() ==> is_id_char(#[trigger] id[i])
}

fn id_in_closed_alphabet(id: &str) -> (r: bool)
    ensures
        r == valid_id(id@),
{
    if bytes_of(id) > MAX_PROVIDER_ID_BYTES {
        return false;
    }
    let s = chars_of(id);
    if s.len() == 0 || !('a' <= s[0] && s[0] <= 'z') {
        return false;
    }
    let mut i: usize = 0;
    while i < s.len()
        invariant
            i <= s@.len(),
            s@ == id@,
            forall|k: int| 0 <= k < i ==> is_id_char(#[trigger] s@[k]),
        decreases s@.len() - i,
    {
        let c = s[i];
        if !(('a' <= c && c <= 'z') || ('0' <= c && c <= '9') || c == '-') {
            return false;
        }
        i = i + 1;
    }
    true
}

/// One of the names is `id`, ASCII case aside.
pub open spec fn names_ignoring_case(names: Seq<Seq<char>>, id: Seq<char>) -> bool {
    exists|i: int| 0 <= i < names.len() && ascii_lower(#[trigger] names[i]) == ascii_lower(id)
}

fn is_reserved(names: &[String], id: &str) -> (r: bool)
    ensures
        r == names_ignoring_case(texts_of(names@), id@),
{
    let wanted = chars_of(id);
    let wanted = lower_chars(wanted.as_slice());
    let ghost all = texts_of(names@);
    let mut i: usize = 0;
    while i < names.len()
        invariant
            i <= names@.len(),
            all == texts_of(names@),
            wanted@ == ascii_lower(id@),
            forall|k: int| 0 <= k < i ==> ascii_lower(#[trigger] all[k]) != ascii_lower(id@),
        decreases names@.len() - i,
    {
        let name = chars_of(names[i].as_str());
        let name = lower_chars(name.as_slice());
        assert(name@ == ascii_lower(all[i as int]));
        if same_chars(name.as_slice(), wanted.as_slice()) {
            return true;
        }
        i = i + 1;
    }
    false
}

fn contains_text(texts: &[String], t: &str) -> (r: bool)
    ensures
        r == texts_of(texts@).contains(t@),
{
    let ghost all = texts_of(texts@);
    let mut i: usize = 0;
    while i < texts.len()
        invariant
            i <= texts@.len(),
            all == texts_of(texts@),
            forall|k: int| 0 <= k < i ==> #[trigger] all[k] != t@,
        decreases texts@.len() - i,
    {
        assert(all[i as int] == texts@[i as int]@);
        if same_text(texts[i].as_str(), t) {
            return true;
        }
        i = i + 1;
    }
    false
}

/// `provider "<id>"`.
pub open spec fn provider_named(id: Seq<char>) -> Seq<char> {
    "provider \""@ + id + "\""@
}

fn named_provider(id: &str) -> (r: String)
    ensures
        r@ == provider_named(id@),
{
    text3("provider \"", id, "\"")
}

pub open spec fn invalid_id_sentence(id: Seq<char>) -> Seq<char> {
    "provider id \""@ + id
        + "\" is not a valid provider id: ids match ^[a-z][a-z0-9-]*$ (a lowercase letter, then lowercase letters, digits and hyphens)"@
}

pub open spec fn built_in_sentence(id: Seq<char>) -> Seq<char> {
    "provider id \""@ + id
        + "\" is built in; user rows may not redefine a built-in provider (not supported yet)"@
}

/// Why `extends` is refused, if it is: a row must declare it, and of what it may
/// name only `acp` is supported.
pub open spec fn extends_refusal(
    id: Seq<char>,
    extends: Option<Seq<char>>,
    native_ids: Seq<Seq<char>>,
) -> Option<Seq<char>> {
    match extends {
        Some(given) if trim(given, CharClass::White).len() > 0 => {
            let name = trim(given, CharClass::White);
            if native_ids.contains(name) {
                Some(
                    provider_named(id) + " extends native provider \""@ + name
                        + "\"; extending a native family is not supported yet"@,
                )
            } else if name != "acp"@ {
                Some(
                    provider_named(id) + " extends \""@ + name
                        + "\", which is not in the set extends may name: "@ + extendable_ids(
                        native_ids,
                    ),
                )
            } else {
                None
            }
        },
        _ => Some(provider_named(id) + " must declare extends"@),
    }
}

pub open spec fn no_command_sentence(id: Seq<char>) -> Seq<char> {
    provider_named(id) + " must declare command (a non-empty argv list)"@
}

/// Why one element of a command is refused, if it is.
pub open spec fn element_refusal(id: Seq<char>, command: Seq<Seq<char>>, i: int) -> Option<
    Seq<char>,
> {
    let place = decimal((i + 1) as nat);
    if command[i].len() == 0 {
        Some(provider_named(id) + " has an empty command element at position "@ + place)
    } else if byte_len(command[i]) > MAX_PROVIDER_COMMAND_ARG_BYTES {
        Some(
            "the command element at position "@ + place + " of "@ + provider_named(id) + " is "@
                + decimal(byte_len(command[i])) + " bytes, over the 4096-byte cap"@,
        )
    } else {
        None
    }
}

/// The first refusal among the elements from `i` on.
pub open spec fn elements_refusal(id: Seq<char>, command: Seq<Seq<char>>, i: int) -> Option<
    Seq<char>,
>
    decreases command.len() - i,
{
    if i < 0 || i >= command.len() {
        None
    } else if element_refusal(id, command, i) is Some {
        element_refusal(id, command, i)
    } else {
        elements_refusal(id, command, i + 1)
    }
}

/// Why a command is refused, if it is.
pub open spec fn command_refusal(id: Seq<char>, command: Option<Seq<Seq<char>>>) -> Option<
    Seq<char>,
> {
    match command {
        Some(elements) if elements.len() > 0 => if elements_refusal(id, elements, 0) is Some {
            elements_refusal(id, elements, 0)
        } else if elements.len() > MAX_PROVIDER_COMMAND_ARGS {
            Some(
                provider_named(id) + " carries "@ + decimal(elements.len())
                    + " command elements, over the 32-element cap"@,
            )
        } else {
            None
        },
        _ => Some(no_command_sentence(id)),
    }
}

/// Why one env entry is refused, if it is. The length in both sentences is the
/// key's.
pub open spec fn entry_refusal(id: Seq<char>, key: Seq<char>, value: Seq<char>) -> Option<
    Seq<char>,
> {
    if key.len() == 0 {
        Some(provider_named(id) + " has an empty env key"@)
    } else if byte_len(key) > MAX_PROVIDER_ENV_BYTES {
        Some(
            "the env key \""@ + key + "\" of "@ + provider_named(id) + " is "@ + decimal(
                byte_len(key),
            ) + " bytes, over the 4096-byte cap"@,
        )
    } else if byte_len(value) > MAX_PROVIDER_ENV_BYTES {
        Some(
            "the env value of \""@ + key + "\" in "@ + provider_named(id) + " is "@ + decimal(
                byte_len(key),
            ) + " bytes, over the 4096-byte cap"@,
        )
    } else {
        None
    }
}

/// The first refusal among the env entries from `i` on.
pub open spec fn entries_refusal(id: Seq<char>, env: Seq<(Seq<char>, Seq<char>)>, i: int) -> Option<
    Seq<char>,
>
    decreases env.len() - i,
{
    if i < 0 || i >= env.len() {
        None
    } else if entry_refusal(id, env[i].0, env[i].1) is Some {
        entry_refusal(id, env[i].0, env[i].1)
    } else {
        entries_refusal(id, env, i + 1)
    }
}

/// Why an env is refused, if it is.
pub open spec fn env_refusal(id: Seq<char>, env: Option<Seq<(Seq<char>, Seq<char>)>>) -> Option<
    Seq<char>,
> {
    match env {
        None => None,
        Some(entries) => if entries.len() > MAX_PROVIDER_ENV_ENTRIES {
            Some(
                provider_named(id) + " carries "@ + decimal(entries.len())
                    + " env entries, over the 32-entry cap"@,
            )
        } else {
            entries_refusal(id, entries, 0)
        },
    }
}

/// Why an optional text is refused, if it is: it says something, or it is left
/// out.
pub open spec fn optional_text_refusal(
    id: Seq<char>,
    field: Seq<char>,
    value: Option<Seq<char>>,
    cap: nat,
) -> Option<Seq<char>> {
    match value {
        None => None,
        Some(text) => if trim(text, CharClass::White).len() == 0 {
            Some(
                provider_named(id) + " has an empty "@ + field
                    + "; omit the field to say it has none"@,
            )
        } else if byte_len(text) > cap {
            Some(
                "the "@ + field + " of "@ + provider_named(id) + " is "@ + decimal(byte_len(text))
                    + " bytes, over the "@ + decimal(cap) + "-byte cap"@,
            )
        } else {
            None
        },
    }
}

/// Why a row is refused, if it is: the first rule that it breaks.
pub open spec fn row_refusal(
    id: Seq<char>,
    row: RowView,
    native_ids: Seq<Seq<char>>,
    reserved: Seq<Seq<char>>,
) -> Option<Seq<char>> {
    if !valid_id(id) {
        Some(invalid_id_sentence(id))
    } else if names_ignoring_case(reserved, id) {
        Some(built_in_sentence(id))
    } else if extends_refusal(id, row.extends, native_ids) is Some {
        extends_refusal(id, row.extends, native_ids)
    } else if command_refusal(id, row.command) is Some {
        command_refusal(id, row.command)
    } else if env_refusal(id, row.env) is Some {
        env_refusal(id, row.env)
    } else if optional_text_refusal(id, "label"@, row.label, MAX_PROVIDER_LABEL_BYTES as nat) is Some {
        optional_text_refusal(id, "label"@, row.label, MAX_PROVIDER_LABEL_BYTES as nat)
    } else {
        optional_text_refusal(
            id,
            "description"@,
            row.description,
            MAX_PROVIDER_DESCRIPTION_BYTES as nat,
        )
    }
}

/// The sentence of a refusal.
pub open spec fn refusal_view<T>(r: Result<T, String>) -> Option<Seq<char>> {
    match r {
        Ok(_) => None,
        Err(t) => Some(t@),
    }
}

fn check_extends(id: &str, extends: &Option<String>, native_ids: &[String]) -> (r: Result<
    (),
    String,
>)
    ensures
        refusal_view(r) == extends_refusal(id@, text_view(*extends), texts_of(native_ids@)),
{
    if let Some(given) = extends {
        let chars = chars_of(given.as_str());
        let name = trimmed(chars.as_slice(), CharClass::White);
        if name.len() > 0 {
            let name = text_of(name);
            let named = named_provider(id);
            if contains_text(native_ids, name.as_str()) {
                let mut said = text3(named.as_str(), " extends native provider \"", name.as_str());
                said.append("\"; extending a native family is not supported yet");
                return Err(said);
            }
            if !same_text(name.as_str(), "acp") {
                return Err(
                    text5(
                        named.as_str(),
                        " extends \"",
                        name.as_str(),
                        "\", which is not in the set extends may name: ",
                        extendable_ids_sentence(native_ids).as_str(),
                    ),
                );
            }
            return Ok(());
        }
    }
    let mut said = named_provider(id);
    said.append(" must declare extends");
    Err(said)
}

fn check_command(id: &str, command: &Option<Vec<String>>) -> (r: Result<(), String>)
    ensures
        refusal_view(r) == command_refusal(
            id@,
            match *command {
                Some(c) => Some(texts_of(c@)),
                None => None,
            },
        ),
{
    let named = named_provider(id);
    if let Some(elements) = command {
        if elements.len() > 0 {
            let ghost all = texts_of(elements@);
            let mut i: usize = 0;
            while i < elements.len()
                invariant
                    i <= elements@.len(),
                    all == texts_of(elements@),
                    named@ == provider_named(id@),
                    elements_refusal(id@, all, 0) == elements_refusal(id@, all, i as int),
                    command matches Some(c) && *c == *elements,
                    elements@.len() > 0,
                decreases elements@.len() - i,
            {
                assert(all[i as int] == elements@[i as int]@);
                let arg = elements[i].as_str();
                if arg.is_empty() {
                    return Err(
                        text3(
                            named.as_str(),
                            " has an empty command element at position ",
                            decimal_text(i as u64 + 1).as_str(),
                        ),
                    );
                }
                if bytes_of(arg) > MAX_PROVIDER_COMMAND_ARG_BYTES {
                    let mut said = text5(
                        "the command element at position ",
                        decimal_text(i as u64 + 1).as_str(),
                        " of ",
                        named.as_str(),
                        " is ",
                    );
                    said.append(bytes_text(arg).as_str());
                    said.append(" bytes, over the 4096-byte cap");
                    return Err(said);
                }
                i = i + 1;
            }
            if elements.len() > MAX_PROVIDER_COMMAND_ARGS {
                let mut said = text3(
                    named.as_str(),
                    " carries ",
                    decimal_text(elements.len() as u64).as_str(),
                );
                said.append(" command elements, over the 32-element cap");
                return Err(said);
            }
            return Ok(());
        }
    }
    let mut said = named;
    said.append(" must declare command (a non-empty argv list)");
    Err(said)
}

fn check_env(id: &str, env: &Option<Vec<(String, String)>>) -> (r: Result<(), String>)
    ensures
        refusal_view(r) == env_refusal(
            id@,
            match *env {
                Some(e) => Some(e@.map_values(|p: (String, String)| (p.0@, p.1@))),
                None => None,
            },
        ),
{
    let entries = match env {
        None => {
            return Ok(());
        },
        Some(entries) => entries,
    };
    let named = named_provider(id);
    let ghost all = entries@.map_values(|p: (String, String)| (p.0@, p.1@));
    if entries.len() > MAX_PROVIDER_ENV_ENTRIES {
        let mut said = text3(
            named.as_str(),
            " carries ",
            decimal_text(entries.len() as u64).as_str(),
        );
        said.append(" env entries, over the 32-entry cap");
        return Err(said);
    }
    let mut i: usize = 0;
    while i < entries.len()
        invariant
            i <= entries@.len(),
            all == entries@.map_values(|p: (String, String)| (p.0@, p.1@)),
            named@ == provider_named(id@),
            entries@.len() <= MAX_PROVIDER_ENV_ENTRIES,
            entries_refusal(id@, all, 0) == entries_refusal(id@, all, i as int),
            env matches Some(e) && *e == *entries,
        decreases entries@.len() - i,
    {
        let key = entries[i].0.as_str();
        let value = entries[i].1.as_str();
        assert(all[i as int] == (key@, value@));
        if key.is_empty() {
            let mut said = named;
            said.append(" has an empty env key");
            return Err(said);
        }
        if bytes_of(key) > MAX_PROVIDER_ENV_BYTES {
            let mut said = text5("the env key \"", key, "\" of ", named.as_str(), " is ");
            said.append(bytes_text(key).as_str());
            said.append(" bytes, over the 4096-byte cap");
            return Err(said);
        }
        if bytes_of(value) > MAX_PROVIDER_ENV_BYTES {
            let mut said = text5("the env value of \"", key, "\" in ", named.as_str(), " is ");
            said.append(bytes_text(key).as_str());
            said.append(" bytes, over the 4096-byte cap");
            return Err(said);
        }
        i = i + 1;
    }
    Ok(())
}

fn check_optional_text(id: &str, field: &str, value: &Option<String>, cap: usize) -> (r: Result<
    (),
    String,
>)
    ensures
        refusal_view(r) == optional_text_refusal(id@, field@, text_view(*value), cap as nat),
{
    let text = match value {
        None => {
            return Ok(());
        },
        Some(text) => text.as_str(),
    };
    let named = named_provider(id);
    let chars = chars_of(text);
    if trimmed(chars.as_slice(), CharClass::White).len() == 0 {
        let mut said = text3(named.as_str(), " has an empty ", field);
        said.append("; omit the field to say it has none");
        return Err(said);
    }
    if bytes_of(text) > cap {
        let mut said = text7(
            "the ",
            field,
            " of ",
            named.as_str(),
            " is ",
            bytes_text(text).as_str(),
            " bytes, over the ",
        );
        said.append(decimal_text(cap as u64).as_str());
        said.append("-byte cap");
        return Err(said);
    }
    Ok(())
}

/// Whether a row may stand in the catalogue, or why not. `native_ids` are the
/// ids that the native families bind by, `reserved` every name that the
/// built-in catalogue answers to, aliases included.
pub fn validate_row(id: &str, row: &UserProviderRow, native_ids: &[String], reserved: &[String]) -> (r:
    Result<(), String>)
    ensures
        refusal_view(r) == row_refusal(id@, row@, texts_of(native_ids@), texts_of(reserved@)),
{
    if !id_in_closed_alphabet(id) {
        return Err(
            text3(
                "provider id \"",
                id,
                "\" is not a valid provider id: ids match ^[a-z][a-z0-9-]*$ (a lowercase letter, then lowercase letters, digits and hyphens)",
            ),
        );
    }
    if is_reserved(reserved, id) {
        return Err(
            text3(
                "provider id \"",
                id,
                "\" is built in; user rows may not redefine a built-in provider (not supported yet)",
            ),
        );
    }
    if let Err(said) = check_extends(id, &row.extends, native_ids) {
        return Err(said);
    }
    if let Err(said) = check_command(id, &row.command) {
        return Err(said);
    }
    if let Err(said) = check_env(id, &row.env) {
        return Err(said);
    }
    if let Err(said) = check_optional_text(id, "label", &row.label, MAX_PROVIDER_LABEL_BYTES) {
        return Err(said);
    }
    check_optional_text(id, "description", &row.description, MAX_PROVIDER_DESCRIPTION_BYTES)
}

/// The first refusal among the rows from `i` on.
pub open spec fn rows_refusal(
    rows: Seq<(Seq<char>, RowView)>,
    native_ids: Seq<Seq<char>>,
    reserved: Seq<Seq<char>>,
    i: int,
) -> Option<Seq<char>>
    decreases rows.len() - i,
{
    if i < 0 || i >= rows.len() {
        None
    } else if row_refusal(rows[i].0, rows[i].1, native_ids, reserved) is Some {
        row_refusal(rows[i].0, rows[i].1, native_ids, reserved)
    } else {
        rows_refusal(rows, native_ids, reserved, i + 1)
    }
}

/// Why a document of `len` bytes is refused, if it is; `parsed` is what the
/// bytes read as.
pub open spec fn document_refusal(
    len: nat,
    parsed: Result<Vec<(String, UserProviderRow)>, String>,
    native_ids: Seq<Seq<char>>,
    reserved: Seq<Seq<char>>,
) -> Option<Seq<char>> {
    if len > MAX_PROVIDERS_FILE_BYTES {
        Some("the document is "@ + decimal(len) + " bytes, over the 1048576-byte cap"@)
    } else {
        match parsed {
            Err(error) => Some(
                "the document is not a provider record the daemon can read: "@ + error@,
            ),
            Ok(rows) => if rows@.len() > MAX_PROVIDERS {
                Some(
                    "the document holds "@ + decimal(rows@.len())
                        + " providers, over the 64-provider cap"@,
                )
            } else {
                rows_refusal(rows_view(rows@), native_ids, reserved, 0)
            },
        }
    }
}

/// The rows of a document, in ascending order of their ids, or why it is
/// refused. A document that is wrong in any row is refused whole.
pub fn parse_providers_document(
    bytes: &[u8],
    parsed: Result<Vec<(String, UserProviderRow)>, String>,
    native_ids: &[String],
    reserved: &[String],
) -> (r: Result<Vec<(String, UserProviderRow)>, String>)
    ensures
        refusal_view(r) == document_refusal(
            bytes@.len(),
            parsed,
            texts_of(native_ids@),
            texts_of(reserved@),
        ),
        r is Ok ==> parsed is Ok && r->Ok_0 == parsed->Ok_0,
{
    let len: u64 = bytes.len() as u64;
    if len > MAX_PROVIDERS_FILE_BYTES {
        return Err(
            text3(
                "the document is ",
                decimal_text(len).as_str(),
                " bytes, over the 1048576-byte cap",
            ),
        );
    }
    let rows = match parsed {
        Err(error) => {
            let mut said = "the document is not a provider record the daemon can read: ".to_owned();
            said.append(error.as_str());
            return Err(said);
        },
        Ok(rows) => rows,
    };
    if rows.len() > MAX_PROVIDERS {
        return Err(
            text3(
                "the document holds ",
                decimal_text(rows.len() as u64).as_str(),
                " providers, over the 64-provider cap",
            ),
        );
    }
    let ghost all = rows_view(rows@);
    let mut i: usize = 0;
    while i < rows.len()
        invariant
            i <= rows@.len(),
            all == rows_view(rows@),
            rows_refusal(all, texts_of(native_ids@), texts_of(reserved@), 0) == rows_refusal(
                all,
                texts_of(native_ids@),
                texts_of(reserved@),
                i as int,
            ),
            bytes@.len() <= MAX_PROVIDERS_FILE_BYTES,
            rows@.len() <= MAX_PROVIDERS,
            parsed == Ok::<Vec<(String, UserProviderRow)>, String>(rows),
        decreases rows@.len() - i,
    {
        assert(all[i as int] == (rows@[i as int].0@, rows@[i as int].1@));
        if let Err(said) = validate_row(rows[i].0.as_str(), &rows[i].1, native_ids, reserved) {
            return Err(said);
        }
        i = i + 1;
    }
    Ok(rows)
}

/// The last thing that was seen of the rows file, applied or refused. A file
/// that is not there is not an empty file.
#[derive(Debug)]
pub enum LastSeen {
    Nothing,
    Absent,
    Document(Vec<u8>),
}

/// What this process remembers of the rows file.
#[derive(Debug)]
pub struct RowsState {
    pub last_seen: LastSeen,
}

/// What reading the rows file gave.
#[derive(Debug)]
pub enum FileRead {
    Missing,
    Failed(String),
    Bytes(Vec<u8>),
}

/// What a refresh does to the live rows.
#[derive(Debug)]
pub enum RowsChange {
    /// They stay; the file is as it was.
    Unchanged,
    /// They stay; the file could not be read, and why.
    Unreadable(String),
    /// They stay; the document is refused, and why.
    Refused(String),
    /// These take their place, all at once.
    Apply(Vec<(String, UserProviderRow)>),
}

/// The same document was seen last.
pub open spec fn seen_document(last: LastSeen, bytes: Seq<u8>) -> bool {
    last matches LastSeen::Document(seen) && seen@ == bytes
}

/// The rows that are live after a change.
pub open spec fn live_after(live: Seq<(String, UserProviderRow)>, change: RowsChange) -> Seq<
    (String, UserProviderRow),
> {
    match change {
        RowsChange::Apply(rows) => rows@,
        _ => live,
    }
}

fn same_bytes(a: &[u8], b: &[u8]) -> (r: bool)
    ensures
        r == (a@ == b@),
{
    if a.len() != b.len() {
        return false;
    }
    let mut i: usize = 0;
    while i < a.len()
        invariant
            a@.len() == b@.len(),
            i <= a@.len(),
            forall|k: int| 0 <= k < i ==> #[trigger] a@[k] == b@[k],
        decreases a@.len() - i,
    {
        if a[i] != b[i] {
            return false;
        }
        i = i + 1;
    }
    assert(a@ =~= b@);
    true
}

impl RowsState {
    pub fn new() -> (r: RowsState)
        ensures
            r.last_seen is Nothing,
    {
        RowsState { last_seen: LastSeen::Nothing }
    }

    /// Whether a document still has to be read as rows: it is not the one that
    /// was seen last.
    pub fn is_new_document(&self, bytes: &[u8]) -> (r: bool)
        ensures
            r == !seen_document(self.last_seen, bytes@),
    {
        match &self.last_seen {
            LastSeen::Document(seen) => !same_bytes(seen.as_slice(), bytes),
            _ => true,
        }
    }

    /// Takes one document in. It is remembered as seen whether it is applied or
    /// refused, so a refusal is reported once for each document.
    pub fn apply_document(
        &mut self,
        bytes: Vec<u8>,
        parsed: Result<Vec<(String, UserProviderRow)>, String>,
        native_ids: &[String],
        reserved: &[String],
    ) -> (r: RowsChange)
        ensures
            seen_document(final(self).last_seen, bytes@),
            seen_document(old(self).last_seen, bytes@) ==> r is Unchanged,
            !seen_document(old(self).last_seen, bytes@) ==> match document_refusal(
                bytes@.len(),
                parsed,
                texts_of(native_ids@),
                texts_of(reserved@),
            ) {
                Some(reason) => r matches RowsChange::Refused(t) && t@ == reason,
                None => r matches RowsChange::Apply(rows) && parsed is Ok && rows == parsed->Ok_0,
            },
    {
        if !self.is_new_document(bytes.as_slice()) {
            return RowsChange::Unchanged;
        }
        let r = match parse_providers_document(bytes.as_slice(), parsed, native_ids, reserved) {
            Ok(rows) => RowsChange::Apply(rows),
            Err(reason) => RowsChange::Refused(reason),
        };
        self.last_seen = LastSeen::Document(bytes);
        r
    }

    /// What a read of the rows file does to the live rows. `parsed` is what the
    /// bytes read as; it counts only where there are bytes that are new.
    pub fn refresh_user_rows_with(
        &mut self,
        read: FileRead,
        parsed: Result<Vec<(String, UserProviderRow)>, String>,
        native_ids: &[String],
        reserved: &[String],
    ) -> (r: RowsChange)
        ensures
            match read {
                FileRead::Missing => {
                    &&& final(self).last_seen is Absent
                    &&& old(self).last_seen is Absent ==> r is Unchanged
                    &&& !(old(self).last_seen is Absent) ==> (r matches RowsChange::Apply(rows)
                        && rows@.len() == 0)
                },
                FileRead::Failed(error) => {
                    &&& *final(self) == *old(self)
                    &&& r == RowsChange::Unreadable(error)
                },
                FileRead::Bytes(bytes) => {
                    &&& seen_document(final(self).last_seen, bytes@)
                    &&& seen_document(old(self).last_seen, bytes@) ==> r is Unchanged
                    &&& !seen_document(old(self).last_seen, bytes@) ==> match document_refusal(
                        bytes@.len(),
                        parsed,
                        texts_of(native_ids@),
                        texts_of(reserved@),
                    ) {
                        Some(reason) => r matches RowsChange::Refused(t) && t@ == reason,
                        None => r matches RowsChange::Apply(rows) && parsed is Ok && rows
                            == parsed->Ok_0,
                    }
                },
            },
    {
        match read {
            FileRead::Missing => {
                if let LastSeen::Absent = &self.last_seen {
                    return RowsChange::Unchanged;
                }
                self.last_seen = LastSeen::Absent;
                RowsChange::Apply(Vec::new())
            },
            FileRead::Failed(error) => RowsChange::Unreadable(error),
            FileRead::Bytes(bytes) => self.apply_document(bytes, parsed, native_ids, reserved),
        }
    }
}

/// A row that is not refused has an id of the closed alphabet that nothing built
/// in answers to, extends `acp`, names a process to start, and keeps every
/// bound.
pub proof fn law_accepted_rows_keep_every_rule(
    id: Seq<char>,
    row: RowView,
    native_ids: Seq<Seq<char>>,
    reserved: Seq<Seq<char>>,
)
    requires
        row_refusal(id, row, native_ids, reserved) is None,
    ensures
        valid_id(id),
        !names_ignoring_case(reserved, id),
        row.extends is Some && trim(row.extends->0, CharClass::White) == "acp"@,
        !native_ids.contains("acp"@),
        row.command is Some && 0 < row.command->0.len() <= MAX_PROVIDER_COMMAND_ARGS,
        forall|i: int|
            0 <= i < row.command->0.len() ==> (#[trigger] row.command->0[i]).len() > 0 && byte_len(
                row.command->0[i],
            ) <= MAX_PROVIDER_COMMAND_ARG_BYTES,
        row.env matches Some(env) ==> env.len() <= MAX_PROVIDER_ENV_ENTRIES && forall|i: int|
            0 <= i < env.len() ==> (#[trigger] env[i]).0.len() > 0 && byte_len(env[i].0)
                <= MAX_PROVIDER_ENV_BYTES && byte_len(env[i].1) <= MAX_PROVIDER_ENV_BYTES,
        row.label matches Some(t) ==> trim(t, CharClass::White).len() > 0 && byte_len(t)
            <= MAX_PROVIDER_LABEL_BYTES,
        row.description matches Some(t) ==> trim(t, CharClass::White).len() > 0 && byte_len(t)
            <= MAX_PROVIDER_DESCRIPTION_BYTES,
{
    lemma_elements_accepted(id, row.command->0, 0);
    if row.env is Some {
        lemma_entries_accepted(id, row.env->0, 0);
    }
}

proof fn lemma_elements_accepted(id: Seq<char>, command: Seq<Seq<char>>, i: int)
    requires
        0 <= i,
        elements_refusal(id, command, i) is None,
    ensures
        forall|k: int|
            i <= k < command.len() ==> (#[trigger] command[k]).len() > 0 && byte_len(command[k])
                <= MAX_PROVIDER_COMMAND_ARG_BYTES,
    decreases command.len() - i,
{
    if i < command.len() {
        lemma_elements_accepted(id, command, i + 1);
    }
}

proof fn lemma_entries_accepted(id: Seq<char>, env: Seq<(Seq<char>, Seq<char>)>, i: int)
    requires
        0 <= i,
        entries_refusal(id, env, i) is None,
    ensures
        forall|k: int|
            i <= k < env.len() ==> (#[trigger] env[k]).0.len() > 0 && byte_len(env[k].0)
                <= MAX_PROVIDER_ENV_BYTES && byte_len(env[k].1) <= MAX_PROVIDER_ENV_BYTES,
    decreases env.len() - i,
{
    if i < env.len() {
        lemma_entries_accepted(id, env, i + 1);
    }
}

/// A document is taken only where every row of it is accepted: one bad row
/// refuses the others with it.
pub proof fn law_documents_are_taken_whole(
    len: nat,
    rows: Vec<(String, UserProviderRow)>,
    native_ids: Seq<Seq<char>>,
    reserved: Seq<Seq<char>>,
)
    ensures
        document_refusal(
            len,
            Ok::<Vec<(String, UserProviderRow)>, String>(rows),
            native_ids,
            reserved,
        ) is None <==> len <= MAX_PROVIDERS_FILE_BYTES && rows@.len() <= MAX_PROVIDERS && forall|
            i: int,
        |
            0 <= i < rows@.len() ==> row_refusal(
                (#[trigger] rows@[i]).0@,
                rows@[i].1@,
                native_ids,
                reserved,
            ) is None,
{
    lemma_rows_accepted(rows_view(rows@), native_ids, reserved, 0);
    let all = rows_view(rows@);
    if document_refusal(
        len,
        Ok::<Vec<(String, UserProviderRow)>, String>(rows),
        native_ids,
        reserved,
    ) is None {
        assert forall|i: int| 0 <= i < rows@.len() implies row_refusal(
            (#[trigger] rows@[i]).0@,
            rows@[i].1@,
            native_ids,
            reserved,
        ) is None by {
            assert(all[i] == (rows@[i].0@, rows@[i].1@));
        }
    }
    if forall|i: int|
        0 <= i < rows@.len() ==> row_refusal(
            (#[trigger] rows@[i]).0@,
            rows@[i].1@,
            native_ids,
            reserved,
        ) is None {
        assert forall|i: int| 0 <= i < all.len() implies row_refusal(
            (#[trigger] all[i]).0,
            all[i].1,
            native_ids,
            reserved,
        ) is None by {
            assert(all[i] == (rows@[i].0@, rows@[i].1@));
        }
    }
}

proof fn lemma_rows_accepted(
    rows: Seq<(Seq<char>, RowView)>,
    native_ids: Seq<Seq<char>>,
    reserved: Seq<Seq<char>>,
    i: int,
)
    requires
        0 <= i,
    ensures
        rows_refusal(rows, native_ids, reserved, i) is None <==> forall|k: int|
            i <= k < rows.len() ==> row_refusal(
                (#[trigger] rows[k]).0,
                rows[k].1,
                native_ids,
                reserved,
            ) is None,
    decreases rows.len() - i,
{
    if i < rows.len() {
        lemma_rows_accepted(rows, native_ids, reserved, i + 1);
        assert(rows[i].0 == rows[i].0);
    }
}

/// Only rows that are applied move the live ones: a document that is refused,
/// unchanged or cannot be read leaves them as they are.
pub proof fn law_bad_reads_keep_the_live_rows(
    live: Seq<(String, UserProviderRow)>,
    change: RowsChange,
)
    requires
        !(change is Apply),
    ensures
        live_after(live, change) == live,
{
}

/// The text says something: not all of it is whitespace.
pub open spec fn says_something(t: Seq<char>) -> bool {
    exists|i: int| 0 <= i < t.len() && !is_white(#[trigger] t[i])
}

/// An id that a user may give: `^[a-z][a-z0-9-]*$` of at most 64 bytes, and
/// nothing built in answers to it in any case.
pub open spec fn is_free_id(id: Seq<char>, reserved: Seq<Seq<char>>) -> bool {
    &&& 0 < id.len()
    &&& encode_utf8(id).len() <= 64
    &&& 'a' <= id[0] <= 'z'
    &&& forall|i: int|
        0 <= i < id.len() ==> ('a' <= #[trigger] id[i] <= 'z' || '0' <= id[i] <= '9' || id[i] == '-')
    &&& forall|i: int|
        0 <= i < reserved.len() ==> ascii_lower(#[trigger] reserved[i]) != ascii_lower(id)
}

/// A command of 1 to 32 words, each of 1 to 4096 bytes.
pub open spec fn is_spawnable(command: Seq<Seq<char>>) -> bool {
    &&& 1 <= command.len() <= 32
    &&& forall|i: int|
        0 <= i < command.len() ==> (#[trigger] command[i]).len() > 0 && encode_utf8(command[i]).len()
            <= 4096
}

/// At most 32 variables, each with a name, names and values of at most 4096
/// bytes.
pub open spec fn is_bounded_env(env: Seq<(Seq<char>, Seq<char>)>) -> bool {
    &&& env.len() <= 32
    &&& forall|i: int|
        0 <= i < env.len() ==> (#[trigger] env[i]).0.len() > 0 && encode_utf8(env[i].0).len() <= 4096
            && encode_utf8(env[i].1).len() <= 4096
}

/// A text that may be left out; where it is there it says something, in at most
/// `cap` bytes.
pub open spec fn is_bounded_text(value: Option<Seq<char>>, cap: nat) -> bool {
    match value {
        None => true,
        Some(t) => says_something(t) && encode_utf8(t).len() <= cap,
    }
}

/// A row that keeps every rule: a free id, `acp` extended where `acp` is no
/// native family, a command that can be spawned, and whatever else it has within
/// its bounds. Environment, label and description may be left out.
pub open spec fn is_acceptable(
    id: Seq<char>,
    row: RowView,
    native_ids: Seq<Seq<char>>,
    reserved: Seq<Seq<char>>,
) -> bool {
    &&& is_free_id(id, reserved)
    &&& row.extends is Some && trim(row.extends->0, CharClass::White) == "acp"@
    &&& !native_ids.contains("acp"@)
    &&& row.command is Some && is_spawnable(row.command->0)
    &&& row.env is Some ==> is_bounded_env(row.env->0)
    &&& is_bounded_text(row.label, 200)
    &&& is_bounded_text(row.description, 2048)
}

proof fn lemma_says_something(t: Seq<char>)
    ensures
        says_something(t) <==> trim(t, CharClass::White).len() > 0,
{
    lemma_blank(t, CharClass::White);
    assert forall|i: int| 0 <= i < t.len() implies is_white(#[trigger] t[i]) == belongs(
        CharClass::White,
        t[i],
    ) by {}
}

proof fn lemma_first_bad_element(id: Seq<char>, command: Seq<Seq<char>>, i: int, bad: int)
    requires
        0 <= i <= bad <= command.len(),
        forall|k: int|
            i <= k < bad ==> (#[trigger] command[k]).len() > 0 && encode_utf8(command[k]).len() <= 4096,
        bad < command.len() ==> command[bad].len() == 0 || encode_utf8(command[bad]).len() > 4096,
    ensures
        bad == command.len() ==> elements_refusal(id, command, i) is None,
        bad < command.len() ==> elements_refusal(id, command, i) == element_refusal(
            id,
            command,
            bad,
        ) && element_refusal(id, command, bad) is Some,
    decreases bad - i,
{
    if i < bad {
        assert(command[i].len() > 0);
        lemma_first_bad_element(id, command, i + 1, bad);
    }
}

proof fn lemma_first_bad_entry(
    id: Seq<char>,
    env: Seq<(Seq<char>, Seq<char>)>,
    i: int,
    bad: int,
)
    requires
        0 <= i <= bad <= env.len(),
        forall|k: int|
            i <= k < bad ==> (#[trigger] env[k]).0.len() > 0 && encode_utf8(env[k].0).len() <= 4096
                && encode_utf8(env[k].1).len() <= 4096,
        bad < env.len() ==> env[bad].0.len() == 0 || encode_utf8(env[bad].0).len() > 4096
            || encode_utf8(env[bad].1).len() > 4096,
    ensures
        bad == env.len() ==> entries_refusal(id, env, i) is None,
        bad < env.len() ==> entries_refusal(id, env, i) == entry_refusal(
            id,
            env[bad].0,
            env[bad].1,
        ) && entry_refusal(id, env[bad].0, env[bad].1) is Some,
    decreases bad - i,
{
    if i < bad {
        assert(env[i].0.len() > 0);
        lemma_first_bad_entry(id, env, i + 1, bad);
    }
}

/// A row is accepted exactly where it keeps every rule: none is refused for what
/// it leaves out, and none is accepted beyond a bound.
pub proof fn law_rows_are_accepted_by_the_rules_alone(
    id: Seq<char>,
    row: RowView,
    native_ids: Seq<Seq<char>>,
    reserved: Seq<Seq<char>>,
)
    ensures
        row_refusal(id, row, native_ids, reserved) is None <==> is_acceptable(
            id,
            row,
            native_ids,
            reserved,
        ),
{
    reveal_strlit("acp");
    if let Some(t) = row.label {
        lemma_says_something(t);
    }
    if let Some(t) = row.description {
        lemma_says_something(t);
    }
    if row_refusal(id, row, native_ids, reserved) is None {
        law_accepted_rows_keep_every_rule(id, row, native_ids, reserved);
        assert forall|i: int| 0 <= i < reserved.len() implies ascii_lower(#[trigger] reserved[i])
            != ascii_lower(id) by {}
        assert forall|i: int| 0 <= i < id.len() implies ('a' <= #[trigger] id[i] <= 'z' || '0'
            <= id[i] <= '9' || id[i] == '-') by {
            assert(is_id_char(id[i]));
        }
    }
    if is_acceptable(id, row, native_ids, reserved) {
        assert forall|i: int| 0 <= i < id.len() implies is_id_char(#[trigger] id[i]) by {}
        lemma_first_bad_element(id, row.command->0, 0, row.command->0.len() as int);
        if row.env is Some {
            lemma_first_bad_entry(id, row.env->0, 0, row.env->0.len() as int);
        }
    }
}

/// Leaving out the environment, the label or the description never refuses a
/// row, and never makes a refused one acceptable but for what was wrong in it.
pub proof fn law_optional_fields_may_be_left_out(
    id: Seq<char>,
    row: RowView,
    native_ids: Seq<Seq<char>>,
    reserved: Seq<Seq<char>>,
)
    requires
        row_refusal(id, row, native_ids, reserved) is None,
    ensures
        row_refusal(
            id,
            RowView { label: None, description: None, env: None, ..row },
            native_ids,
            reserved,
        ) is None,
{
    law_rows_are_accepted_by_the_rules_alone(id, row, native_ids, reserved);
    law_rows_are_accepted_by_the_rules_alone(
        id,
        RowView { label: None, description: None, env: None, ..row },
        native_ids,
        reserved,
    );
}

/// A refusal names the first rule that the row breaks, with the provider's id:
/// the id itself, then `extends`, the command, the environment, the label and
/// the description.
pub proof fn law_refusals_name_the_first_broken_rule(
    id: Seq<char>,
    row: RowView,
    native_ids: Seq<Seq<char>>,
    reserved: Seq<Seq<char>>,
    at: int,
)
    ensures
        ({
            let said = row_refusal(id, row, native_ids, reserved);
            let named = "provider \""@ + id + "\""@;
            let no_command = Some(named + " must declare command (a non-empty argv list)"@);
            let extends = trim(row.extends->0, CharClass::White);
            &&& !is_free_id(id, Seq::empty()) ==> said == Some(
                "provider id \""@ + id
                    + "\" is not a valid provider id: ids match ^[a-z][a-z0-9-]*$ (a lowercase letter, then lowercase letters, digits and hyphens)"@,
            )
            &&& is_free_id(id, Seq::empty()) && !is_free_id(id, reserved) ==> said == Some(
                "provider id \""@ + id
                    + "\" is built in; user rows may not redefine a built-in provider (not supported yet)"@,
            )
            &&& is_free_id(id, reserved) ==> {
                &&& row.extends is None || !says_something(row.extends->0) ==> said == Some(
                    named + " must declare extends"@,
                )
                &&& row.extends is Some && says_something(row.extends->0) && native_ids.contains(
                    extends,
                ) ==> said == Some(
                    named + " extends native provider \""@ + extends
                        + "\"; extending a native family is not supported yet"@,
                )
                &&& row.extends is Some && says_something(row.extends->0) && !native_ids.contains(
                    extends,
                ) && extends != "acp"@ ==> said == Some(
                    named + " extends \""@ + extends
                        + "\", which is not in the set extends may name: "@ + join(
                        seq!["acp"@] + native_ids,
                        ", "@,
                    ),
                )
                &&& row.extends is Some && extends == "acp"@ && !native_ids.contains("acp"@) ==> {
                    &&& row.command is None ==> said == no_command
                    &&& row.command matches Some(command) ==> {
                        &&& command.len() == 0 ==> said == no_command
                        &&& 0 <= at < command.len() && (forall|k: int|
                            0 <= k < at ==> (#[trigger] command[k]).len() > 0 && encode_utf8(
                                command[k],
                            ).len() <= 4096) ==> {
                            &&& command[at].len() == 0 ==> said == Some(
                                named + " has an empty command element at position "@ + decimal(
                                    (at + 1) as nat,
                                ),
                            )
                            &&& command[at].len() > 0 && encode_utf8(command[at]).len() > 4096
                                ==> said == Some(
                                "the command element at position "@ + decimal((at + 1) as nat)
                                    + " of "@ + named + " is "@ + decimal(
                                    encode_utf8(command[at]).len(),
                                ) + " bytes, over the 4096-byte cap"@,
                            )
                        }
                        &&& command.len() > 32 && (forall|k: int|
                            0 <= k < command.len() ==> (#[trigger] command[k]).len() > 0
                                && encode_utf8(command[k]).len() <= 4096) ==> said == Some(
                            named + " carries "@ + decimal(command.len())
                                + " command elements, over the 32-element cap"@,
                        )
                        &&& is_spawnable(command) ==> {
                            &&& row.env matches Some(env) ==> {
                                &&& env.len() > 32 ==> said == Some(
                                    named + " carries "@ + decimal(env.len())
                                        + " env entries, over the 32-entry cap"@,
                                )
                                &&& env.len() <= 32 && 0 <= at < env.len() && (forall|k: int|
                                    0 <= k < at ==> (#[trigger] env[k]).0.len() > 0 && encode_utf8(
                                        env[k].0,
                                    ).len() <= 4096 && encode_utf8(env[k].1).len() <= 4096) ==> {
                                    &&& env[at].0.len() == 0 ==> said == Some(
                                        named + " has an empty env key"@,
                                    )
                                    &&& env[at].0.len() > 0 && encode_utf8(env[at].0).len() > 4096
                                        ==> said == Some(
                                        "the env key \""@ + env[at].0 + "\" of "@ + named + " is "@
                                            + decimal(encode_utf8(env[at].0).len())
                                            + " bytes, over the 4096-byte cap"@,
                                    )
                                    &&& env[at].0.len() > 0 && encode_utf8(env[at].0).len() <= 4096
                                        && encode_utf8(env[at].1).len() > 4096 ==> said == Some(
                                        "the env value of \""@ + env[at].0 + "\" in "@ + named
                                            + " is "@ + decimal(encode_utf8(env[at].0).len())
                                            + " bytes, over the 4096-byte cap"@,
                                    )
                                }
                            }
                            &&& row.env is None || is_bounded_env(row.env->0) ==> {
                                &&& row.label matches Some(t) ==> {
                                    &&& !says_something(t) ==> said == Some(
                                        named + " has an empty "@ + "label"@
                                            + "; omit the field to say it has none"@,
                                    )
                                    &&& says_something(t) && encode_utf8(t).len() > 200 ==> said
                                        == Some(
                                        "the "@ + "label"@ + " of "@ + named + " is "@ + decimal(
                                            encode_utf8(t).len(),
                                        ) + " bytes, over the "@ + decimal(200) + "-byte cap"@,
                                    )
                                }
                                &&& is_bounded_text(row.label, 200) ==> (
                                row.description matches Some(t) ==> {
                                    &&& !says_something(t) ==> said == Some(
                                        named + " has an empty "@ + "description"@
                                            + "; omit the field to say it has none"@,
                                    )
                                    &&& says_something(t) && encode_utf8(t).len() > 2048 ==> said
                                        == Some(
                                        "the "@ + "description"@ + " of "@ + named + " is "@
                                            + decimal(encode_utf8(t).len()) + " bytes, over the "@
                                            + decimal(2048) + "-byte cap"@,
                                    )
                                })
                            }
                        }
                    }
                }
            }
        }),
{
    reveal_strlit("acp");
    lemma_free_id(id, reserved);
    if let Some(t) = row.extends {
        lemma_says_something(t);
    }
    if let Some(t) = row.label {
        lemma_says_something(t);
    }
    if let Some(t) = row.description {
        lemma_says_something(t);
    }
    if let Some(command) = row.command {
        if 0 <= at < command.len() && (command[at].len() == 0 || encode_utf8(command[at]).len() > 4096)
            && (forall|k: int|
            0 <= k < at ==> (#[trigger] command[k]).len() > 0 && encode_utf8(command[k]).len()
                <= 4096) {
            lemma_first_bad_element(id, command, 0, at);
        }
        if forall|k: int|
            0 <= k < command.len() ==> (#[trigger] command[k]).len() > 0 && encode_utf8(
                command[k],
            ).len() <= 4096 {
            lemma_first_bad_element(id, command, 0, command.len() as int);
        }
    }
    if let Some(env) = row.env {
        if 0 <= at < env.len() && (env[at].0.len() == 0 || encode_utf8(env[at].0).len() > 4096
            || encode_utf8(env[at].1).len() > 4096) && (forall|k: int|
            0 <= k < at ==> (#[trigger] env[k]).0.len() > 0 && encode_utf8(env[k].0).len() <= 4096
                && encode_utf8(env[k].1).len() <= 4096) {
            lemma_first_bad_entry(id, env, 0, at);
        }
        if is_bounded_env(env) {
            lemma_first_bad_entry(id, env, 0, env.len() as int);
        }
    }
}

proof fn lemma_free_id(id: Seq<char>, reserved: Seq<Seq<char>>)
    ensures
        valid_id(id) == is_free_id(id, Seq::empty()),
        is_free_id(id, reserved) == (valid_id(id) && !names_ignoring_case(reserved, id)),
{
    if valid_id(id) {
        assert forall|i: int| 0 <= i < id.len() implies ('a' <= #[trigger] id[i] <= 'z' || '0'
            <= id[i] <= '9' || id[i] == '-') by {
            assert(is_id_char(id[i]));
        }
        assert(is_free_id(id, Seq::empty()));
    }
    if is_free_id(id, Seq::empty()) {
        assert forall|i: int| 0 <= i < id.len() implies is_id_char(#[trigger] id[i]) by {}
    }
    if is_free_id(id, reserved) {
        assert(is_free_id(id, Seq::empty()));
    }
}

/// A document is refused for its size, for what it does not read as, for holding
/// more than 64 rows, or with the sentence of its first bad row; and it is taken
/// otherwise.
pub proof fn law_documents_are_refused_for_their_first_fault(
    len: nat,
    parsed: Result<Vec<(String, UserProviderRow)>, String>,
    native_ids: Seq<Seq<char>>,
    reserved: Seq<Seq<char>>,
    at: int,
)
    ensures
        ({
            let said = document_refusal(len, parsed, native_ids, reserved);
            &&& len > 1048576 ==> said == Some(
                "the document is "@ + decimal(len) + " bytes, over the 1048576-byte cap"@,
            )
            &&& len <= 1048576 ==> {
                &&& parsed matches Err(error) ==> said == Some(
                    "the document is not a provider record the daemon can read: "@ + error@,
                )
                &&& parsed matches Ok(rows) ==> {
                    &&& rows@.len() > 64 ==> said == Some(
                        "the document holds "@ + decimal(rows@.len())
                            + " providers, over the 64-provider cap"@,
                    )
                    &&& rows@.len() <= 64 && (forall|i: int|
                        0 <= i < rows@.len() ==> is_acceptable(
                            (#[trigger] rows@[i]).0@,
                            rows@[i].1@,
                            native_ids,
                            reserved,
                        )) ==> said is None
                    &&& rows@.len() <= 64 && 0 <= at < rows@.len() && (forall|i: int|
                        0 <= i < at ==> is_acceptable(
                            (#[trigger] rows@[i]).0@,
                            rows@[i].1@,
                            native_ids,
                            reserved,
                        )) && !is_acceptable(rows@[at].0@, rows@[at].1@, native_ids, reserved)
                        ==> said is Some && said == row_refusal(
                        rows@[at].0@,
                        rows@[at].1@,
                        native_ids,
                        reserved,
                    )
                }
            }
        }),
{
    if let Ok(rows) = parsed {
        let all = rows_view(rows@);
        assert forall|i: int| 0 <= i < rows@.len() implies row_refusal(
            (#[trigger] rows@[i]).0@,
            rows@[i].1@,
            native_ids,
            reserved,
        ) is None == is_acceptable(rows@[i].0@, rows@[i].1@, native_ids, reserved) by {
            law_rows_are_accepted_by_the_rules_alone(
                rows@[i].0@,
                rows@[i].1@,
                native_ids,
                reserved,
            );
        }
        assert forall|i: int| 0 <= i < rows@.len() implies #[trigger] all[i] == (
            rows@[i].0@,
            rows@[i].1@,
        ) by {}
        law_documents_are_taken_whole(len, rows, native_ids, reserved);
        if 0 <= at < rows@.len() && (forall|i: int|
            0 <= i < at ==> is_acceptable(
                (#[trigger] rows@[i]).0@,
                rows@[i].1@,
                native_ids,
                reserved,
            )) && !is_acceptable(rows@[at].0@, rows@[at].1@, native_ids, reserved) {
            assert(rows@[at].0@ == all[at].0);
            lemma_first_bad_row(all, native_ids, reserved, 0, at);
        }
    }
}

proof fn lemma_first_bad_row(
    rows: Seq<(Seq<char>, RowView)>,
    native_ids: Seq<Seq<char>>,
    reserved: Seq<Seq<char>>,
    i: int,
    bad: int,
)
    requires
        0 <= i <= bad < rows.len(),
        forall|k: int|
            i <= k < bad ==> row_refusal(
                (#[trigger] rows[k]).0,
                rows[k].1,
                native_ids,
                reserved,
            ) is None,
        row_refusal(rows[bad].0, rows[bad].1, native_ids, reserved) is Some,
    ensures
        rows_refusal(rows, native_ids, reserved, i) == row_refusal(
            rows[bad].0,
            rows[bad].1,
            native_ids,
            reserved,
        ),
    decreases bad - i,
{
    if i < bad {
        assert(row_refusal(rows[i].0, rows[i].1, native_ids, reserved) is None);
        lemma_first_bad_row(rows, native_ids, reserved, i + 1, bad);
    }
}

/// A document was seen where it is the last one, byte for byte.
pub proof fn law_documents_are_known_by_their_bytes(seen: Vec<u8>, bytes: Seq<u8>, k: int)
    ensures
        seen@ == bytes ==> seen_document(LastSeen::Document(seen), bytes),
        seen@.len() != bytes.len() ==> !seen_document(LastSeen::Document(seen), bytes),
        0 <= k < bytes.len() && k < seen@.len() && seen@[k] != bytes[k] ==> !seen_document(
            LastSeen::Document(seen),
            bytes,
        ),
        !seen_document(LastSeen::Absent, bytes),
{
}

/// A row may extend `acp` or a native provider; the sentence names them all, in
/// this order.
pub proof fn law_extendable_providers_are_named(native_ids: Seq<Seq<char>>)
    ensures
        native_ids.len() == 0 ==> extendable_ids(native_ids) == "acp"@,
        native_ids.len() > 0 ==> extendable_ids(native_ids) == "acp, "@ + join(native_ids, ", "@),
{
    reveal_strlit("acp");
    reveal_strlit("acp, ");
    reveal_strlit(", ");
    if native_ids.len() > 0 {
        lemma_join_first("acp"@, native_ids, ", "@);
        assert("acp"@ + ", "@ =~= "acp, "@);
    } else {
        assert(seq!["acp"@] + native_ids =~= seq!["acp"@]);
    }
}

} // verus!

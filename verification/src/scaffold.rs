//! Naming rules of the agent project generator: which agent names are
//! accepted, the type name derived from one, and the interface world of each
//! template.
use vstd::prelude::*;
use crate::text::{owned, push_char};

verus! {

/// The lowercase form of a text (the Unicode `Lowercase` mapping).
pub uninterp spec fn lowercase(s: Seq<char>) -> Seq<char>;

/// The uppercase form of one character (the Unicode `Uppercase` mapping,
/// possibly several characters).
pub uninterp spec fn uppercase_char(c: char) -> Seq<char>;

/// Calls `str::to_lowercase`: the lowercase form of `s`, a function of `s`
/// alone.
#[verifier::external_body]
fn to_lowercase(s: &str) -> (r: String)
    ensures
        r@ == lowercase(s@),
{
    s.to_lowercase()
}

/// Calls `char::to_uppercase` and collects the characters: the uppercase
/// form of `c`, a function of `c` alone.
#[verifier::external_body]
fn char_to_uppercase(c: char) -> (r: String)
    ensures
        r@ == uppercase_char(c),
{
    c.to_uppercase().collect::<String>()
}

/// The project templates.
#[derive(Clone, Copy, Debug, PartialEq, Eq, Structural)]
pub enum TemplateType {
    /// An agent with every interface.
    Full,
    /// Messaging, lifecycle and logging only.
    Minimal,
    /// A stateless message handler.
    Stateless,
}

/// The interface world a template builds against.
pub fn template_world(t: TemplateType) -> (w: &'static str)
    ensures
        w@ == match t {
            TemplateType::Full => "agent"@,
            TemplateType::Minimal => "minimal-agent"@,
            TemplateType::Stateless => "stateless-handler"@,
        },
{
    match t {
        TemplateType::Full => "agent",
        TemplateType::Minimal => "minimal-agent",
        TemplateType::Stateless => "stateless-handler",
    }
}

/// ASCII letters.
pub open spec fn is_ascii_alpha(c: char) -> bool {
    ('a' <= c && c <= 'z') || ('A' <= c && c <= 'Z')
}

/// ASCII letters and digits.
pub open spec fn is_ascii_alnum(c: char) -> bool {
    is_ascii_alpha(c) || ('0' <= c && c <= '9')
}

/// Characters an agent name may hold.
pub open spec fn name_char(c: char) -> bool {
    is_ascii_alnum(c) || c == '-' || c == '_'
}

/// Why an agent name is refused.
#[derive(Clone, Copy, Debug, PartialEq, Eq, Structural)]
pub enum NameError {
    Empty,
    NotLetterFirst,
    BadCharacter,
}

/// The message a refusal is reported with.
pub open spec fn name_error_text(e: NameError) -> Seq<char> {
    match e {
        NameError::Empty => "Agent name cannot be empty"@,
        NameError::NotLetterFirst => "Agent name must start with a letter"@,
        NameError::BadCharacter => "Agent name can only contain letters, numbers, hyphens, and underscores"@,
    }
}

impl NameError {
    /// The refusal as text.
    pub fn message(&self) -> (r: &'static str)
        ensures
            r@ == name_error_text(*self),
    {
        match self {
            NameError::Empty => "Agent name cannot be empty",
            NameError::NotLetterFirst => "Agent name must start with a letter",
            NameError::BadCharacter => "Agent name can only contain letters, numbers, hyphens, and underscores",
        }
    }
}

/// Validate an agent name, answering it lowercased: it must be non-empty,
/// start with an ASCII letter, and hold only ASCII letters, digits, `-`
/// and `_` (all judged after lowercasing).
pub fn validate_name(name: &str) -> (r: Result<String, NameError>)
    ensures
        lowercase(name@).len() == 0 ==> r == Err::<String, NameError>(NameError::Empty),
        lowercase(name@).len() > 0 && !is_ascii_alpha(lowercase(name@)[0])
            ==> r == Err::<String, NameError>(NameError::NotLetterFirst),
        lowercase(name@).len() > 0 && is_ascii_alpha(lowercase(name@)[0])
            && !(forall|i: int| 0 <= i < lowercase(name@).len() ==> name_char(#[trigger] lowercase(name@)[i]))
            ==> r == Err::<String, NameError>(NameError::BadCharacter),
        (r is Ok) <==> (lowercase(name@).len() > 0 && is_ascii_alpha(lowercase(name@)[0])
            && forall|i: int| 0 <= i < lowercase(name@).len() ==> name_char(#[trigger] lowercase(name@)[i])),
        r matches Ok(s) ==> s@ == lowercase(name@),
{
    let lower = to_lowercase(name);
    let n = lower.as_str().unicode_len();
    if n == 0 {
        return Err(NameError::Empty);
    }
    let first = lower.as_str().get_char(0);
    if !(('a' <= first && first <= 'z') || ('A' <= first && first <= 'Z')) {
        return Err(NameError::NotLetterFirst);
    }
    let mut i: usize = 0;
    while i < n
        invariant
            n == lower@.len(),
            lower@ == lowercase(name@),
            n > 0 && is_ascii_alpha(lower@[0]),
            i <= n,
            forall|j: int| 0 <= j < i ==> name_char(#[trigger] lower@[j]),
        decreases n - i,
    {
        let c = lower.as_str().get_char(i);
        let ok = ('a' <= c && c <= 'z') || ('A' <= c && c <= 'Z') || ('0' <= c && c <= '9') || c == '-' || c == '_';
        if !ok {
            return Err(NameError::BadCharacter);
        }
        i = i + 1;
    }
    Ok(lower)
}

/// Whether `c` separates words of a name.
pub open spec fn is_separator(c: char) -> bool {
    c == '-' || c == '_'
}

/// The type name of the first `i` characters of `s`: separators vanish and
/// the first character of each word is uppercased.
pub open spec fn pascal_from(s: Seq<char>, i: nat) -> Seq<char>
    decreases i,
{
    if i == 0 {
        Seq::empty()
    } else {
        let prev = pascal_from(s, (i - 1) as nat);
        let c = s[i - 1];
        if is_separator(c) {
            prev
        } else if i - 1 == 0 || is_separator(s[i - 2]) {
            prev + uppercase_char(c)
        } else {
            prev.push(c)
        }
    }
}

/// The type name of a name: its words (split at `-` and `_`) joined, each
/// with its first character uppercased.
pub open spec fn pascal_case(s: Seq<char>) -> Seq<char> {
    pascal_from(s, s.len())
}

/// The type name for an agent name.
pub fn to_pascal_case(s: &str) -> (r: String)
    ensures
        r@ == pascal_case(s@),
{
    let n = s.unicode_len();
    let mut r = String::new();
    let mut i: usize = 0;
    while i < n
        invariant
            n == s@.len(),
            i <= n,
            r@ == pascal_from(s@, i as nat),
        decreases n - i,
    {
        let c = s.get_char(i);
        if c == '-' || c == '_' {
        } else if i == 0 || s.get_char(i - 1) == '-' || s.get_char(i - 1) == '_' {
            let up = char_to_uppercase(c);
            r.append(up.as_str());
        } else {
            push_char(&mut r, c);
        }
        i = i + 1;
    }
    r
}

} // verus!

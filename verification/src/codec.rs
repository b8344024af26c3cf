//! Content-language codecs: the codec interface and a registry of codecs
//! keyed by name.
use vstd::prelude::*;
use crate::fmt::{decimal, push_decimal};
use crate::text::{owned, push_char, str_bytes, str_eq};

verus! {

/// A content-language codec, implemented by users of the library.
pub trait Codec {
    /// The language the codec reports, as text: an implementation defines
    /// it as what its `language` returns. One that does not define it keeps
    /// this default, and its `language` must then return the empty text.
    open spec fn language_spec(&self) -> Seq<char> {
        Seq::empty()
    }

    /// The name the codec reports, as text: an implementation defines it as
    /// what its `name` returns. One that does not define it keeps this
    /// default, and its `name` must then return the empty text.
    open spec fn name_spec(&self) -> Seq<char> {
        Seq::empty()
    }

    /// The MIME type or language identifier.
    fn language(&self) -> (r: &str)
        ensures
            r@ == self.language_spec(),
    ;

    /// The name the codec registers under.
    fn name(&self) -> (r: &str)
        ensures
            r@ == self.name_spec(),
    ;

    /// Whether this codec handles `language`: when it is the codec's
    /// language or its name.
    fn supports(&self, language: &str) -> (r: bool)
        ensures
            r == (language@ == self.language_spec() || language@ == self.name_spec()),
    {
        str_eq(self.language(), language) || str_eq(self.name(), language)
    }
}

/// The names of a registry's entries.
pub open spec fn entry_names<C>(cs: Seq<(String, C)>) -> Seq<Seq<char>> {
    cs.map_values(|e: (String, C)| e.0@)
}

/// A registry's entries as plain values: name and codec.
pub open spec fn entries_view<C>(cs: Seq<(String, C)>) -> Seq<(Seq<char>, C)> {
    cs.map_values(|e: (String, C)| (e.0@, e.1))
}

/// Whether an entry has this name.
pub open spec fn has_entry<C>(cs: Seq<(Seq<char>, C)>, name: Seq<char>) -> bool {
    exists|i: int| 0 <= i < cs.len() && (#[trigger] cs[i]).0 == name
}

/// The entries after registering `c` under `name`: it replaces the entry of
/// that name, or is added at the end.
pub open spec fn entry_insert<C>(cs: Seq<(Seq<char>, C)>, name: Seq<char>, c: C) -> Seq<(Seq<char>, C)> {
    if has_entry(cs, name) {
        cs.map_values(|e: (Seq<char>, C)| if e.0 == name { (name, c) } else { e })
    } else {
        cs.push((name, c))
    }
}

/// No two entries share a name.
pub open spec fn entry_names_distinct<C>(cs: Seq<(Seq<char>, C)>) -> bool {
    forall|i: int, j: int| 0 <= i < cs.len() && 0 <= j < cs.len() && i != j ==> (#[trigger] cs[i]).0 != (#[trigger] cs[j]).0
}

/// Whether codec `c` handles `language`: it is the codec's language or name.
pub open spec fn codec_matches<C: Codec>(c: C, language: Seq<char>) -> bool {
    language == c.language_spec() || language == c.name_spec()
}

/// Codecs, kept in registration order, keyed by the name each reported when
/// it was registered.
pub struct CodecRegistry<C: Codec> {
    codecs: Vec<(String, C)>,
}

impl<C: Codec> View for CodecRegistry<C> {
    type V = Seq<(Seq<char>, C)>;

    closed spec fn view(&self) -> Seq<(Seq<char>, C)> {
        entries_view(self.codecs@)
    }
}

impl<C: Codec> CodecRegistry<C> {
    #[verifier::type_invariant]
    closed spec fn names_distinct(self) -> bool {
        entry_names_distinct(entries_view(self.codecs@))
    }

    /// An empty registry.
    pub fn new() -> (r: Self)
        ensures
            r@.len() == 0,
    {
        let r = CodecRegistry { codecs: Vec::new() };
        assert(entries_view(r.codecs@) =~= Seq::<(Seq<char>, C)>::empty());
        r
    }

    /// Register a codec under the name it reports, replacing one of that name.
    pub fn register(&mut self, codec: C)
        ensures
            final(self)@ == entry_insert(old(self)@, codec.name_spec(), codec),
            has_entry(final(self)@, codec.name_spec()),
            forall|i: int| 0 <= i < final(self)@.len() && (#[trigger] final(self)@[i]).0 == codec.name_spec()
                ==> final(self)@[i].1 == codec,
            forall|i: int| 0 <= i < old(self)@.len() && (#[trigger] old(self)@[i]).0 != codec.name_spec()
                ==> final(self)@[i] == old(self)@[i],
    {
        proof {
            use_type_invariant(&*self);
        }
        proof {
            law_register_then_get(self@, codec.name_spec(), codec);
        }
        let name = owned(codec.name());
        assert(name@ == codec.name_spec());
        let mut codecs: Vec<(String, C)> = Vec::new();
        std::mem::swap(&mut codecs, &mut self.codecs);
        let ghost cs = entries_view(codecs@);
        let mut i: usize = 0;
        while i < codecs.len()
            invariant
                i <= codecs@.len(),
                cs == entries_view(codecs@),
                cs == old(self)@,
                name@ == codec.name_spec(),
                entry_names_distinct(cs),
                forall|j: int| 0 <= j < i ==> (#[trigger] cs[j]).0 != name@,
            decreases codecs@.len() - i,
        {
            if str_eq(codecs[i].0.as_str(), name.as_str()) {
                let ghost k = i as int;
                let ghost added = codec;
                codecs.set(i, (name, codec));
                proof {
                    let after = entries_view(codecs@);
                    assert(has_entry(cs, after[k].0)) by {
                        assert(cs[k].0 == after[k].0);
                    }
                    let nm = after[k].0;
                    assert forall|j: int| 0 <= j < cs.len() implies
                        (#[trigger] after[j]) == (if cs[j].0 == nm { (nm, added) } else { cs[j] }) by {
                        if j != k {
                            assert(cs[j].0 != cs[k].0);
                        }
                    }
                    assert(after =~= entry_insert(cs, nm, added));
                    assert(entry_names_distinct(after)) by {
                        assert forall|a: int, b: int| 0 <= a < after.len() && 0 <= b < after.len() && a != b
                            implies (#[trigger] after[a]).0 != (#[trigger] after[b]).0 by {
                            assert(cs[a].0 != cs[b].0);
                        }
                    }
                }
                self.codecs = codecs;
                return;
            }
            i = i + 1;
        }
        let ghost nm = name@;
        let ghost added = codec;
        codecs.push((name, codec));
        proof {
            let after = entries_view(codecs@);
            assert(after =~= cs.push((nm, added)));
            assert(!has_entry(cs, nm));
            assert(after =~= entry_insert(cs, nm, added));
            assert(entry_names_distinct(after)) by {
                assert forall|a: int, b: int| 0 <= a < after.len() && 0 <= b < after.len() && a != b
                    implies (#[trigger] after[a]).0 != (#[trigger] after[b]).0 by {
                    if a < cs.len() && b < cs.len() {
                        assert(cs[a] == after[a] && cs[b] == after[b]);
                    } else if a < cs.len() {
                        assert(cs[a] == after[a]);
                    } else {
                        assert(cs[b] == after[b]);
                    }
                }
            }
        }
        self.codecs = codecs;
    }

    /// Index of the entry named `name`.
    fn position(&self, name: &str) -> (r: Option<usize>)
        ensures
            match r {
                Some(i) => i < self@.len() && self@[i as int].0 == name@,
                None => !has_entry(self@, name@),
            },
    {
        let mut i: usize = 0;
        while i < self.codecs.len()
            invariant
                i <= self.codecs@.len(),
                forall|j: int| 0 <= j < i ==> (#[trigger] self@[j]).0 != name@,
            decreases self.codecs@.len() - i,
        {
            if str_eq(self.codecs[i].0.as_str(), name) {
                return Some(i);
            }
            i = i + 1;
        }
        None
    }

    /// The codec registered under `name`.
    pub fn get(&self, name: &str) -> (r: Option<&C>)
        ensures
            has_entry(self@, name@) ==> exists|i: int| 0 <= i < self@.len() && self@[i].0 == name@ && r == Some(&self@[i].1),
            !has_entry(self@, name@) ==> r is None,
    {
        match self.position(name) {
            Some(i) => Some(&self.codecs[i].1),
            None => None,
        }
    }

    /// The first registered codec (in registration order) whose `supports`
    /// answers yes for `language`; `None` when no codec does.
    pub fn find_by_language(&self, language: &str) -> (r: Option<&C>)
        ensures
            match r {
                Some(c) => exists|i: int| 0 <= i < self@.len() && *c == self@[i].1
                    && codec_matches(self@[i].1, language@)
                    && forall|j: int| 0 <= j < i ==> !codec_matches(#[trigger] self@[j].1, language@),
                None => forall|i: int| 0 <= i < self@.len() ==> !codec_matches(#[trigger] self@[i].1, language@),
            },
    {
        let mut i: usize = 0;
        while i < self.codecs.len()
            invariant
                i <= self.codecs@.len(),
                forall|j: int| 0 <= j < i ==> !codec_matches(#[trigger] self@[j].1, language@),
            decreases self.codecs@.len() - i,
        {
            assert(self@[i as int].1 == self.codecs@[i as int].1);
            if self.codecs[i].1.supports(language) {
                return Some(&self.codecs[i].1);
            }
            i = i + 1;
        }
        None
    }

    /// The registered names, in registration order.
    pub fn list(&self) -> (r: Vec<String>)
        ensures
            r@.len() == self@.len(),
            forall|i: int| 0 <= i < self@.len() ==> (#[trigger] r@[i])@ == self@[i].0,
    {
        let mut r: Vec<String> = Vec::new();
        let mut i: usize = 0;
        while i < self.codecs.len()
            invariant
                i <= self.codecs@.len(),
                r@.len() == i,
                forall|j: int| 0 <= j < i ==> (#[trigger] r@[j])@ == self@[j].0,
            decreases self.codecs@.len() - i,
        {
            r.push(self.codecs[i].0.clone());
            i = i + 1;
        }
        r
    }

    /// Whether a codec is registered under `name`.
    pub fn contains(&self, name: &str) -> (r: bool)
        ensures
            r == has_entry(self@, name@),
    {
        self.position(name).is_some()
    }

    /// Take out the codec registered under `name`.
    pub fn remove(&mut self, name: &str) -> (r: Option<C>)
        ensures
            !has_entry(old(self)@, name@) ==> r is None && final(self)@ == old(self)@,
            has_entry(old(self)@, name@) ==> exists|i: int| 0 <= i < old(self)@.len()
                && old(self)@[i].0 == name@
                && r == Some(old(self)@[i].1)
                && final(self)@ == old(self)@.remove(i),
            !has_entry(final(self)@, name@),
    {
        proof {
            use_type_invariant(&*self);
        }
        match self.position(name) {
            Some(i) => {
                let mut codecs: Vec<(String, C)> = Vec::new();
                std::mem::swap(&mut codecs, &mut self.codecs);
                let ghost cs = entries_view(codecs@);
                let (_n, c) = codecs.remove(i);
                proof {
                    let after = entries_view(codecs@);
                    assert(after =~= cs.remove(i as int));
                    assert forall|a: int, b: int| 0 <= a < after.len() && 0 <= b < after.len() && a != b
                        implies (#[trigger] after[a]).0 != (#[trigger] after[b]).0 by {
                        let a0 = if a < i { a } else { a + 1 };
                        let b0 = if b < i { b } else { b + 1 };
                        assert(after[a] == cs[a0] && after[b] == cs[b0]);
                    }
                    if has_entry(after, name@) {
                        let j = choose|j: int| 0 <= j < after.len() && (#[trigger] after[j]).0 == name@;
                        let j0 = if j < i { j } else { j + 1 };
                        assert(after[j] == cs[j0]);
                        assert(cs[j0].0 != cs[i as int].0);
                    }
                    assert(c == old(self)@[i as int].1);
                }
                self.codecs = codecs;
                Some(c)
            },
            None => None,
        }
    }
}

/// Registering under a name makes that codec the one found under it.
/// Every other name keeps its entry, at its place.
pub proof fn law_register_then_get<C>(cs: Seq<(Seq<char>, C)>, name: Seq<char>, c: C)
    ensures
        has_entry(entry_insert(cs, name, c), name),
        forall|i: int| 0 <= i < entry_insert(cs, name, c).len() && (#[trigger] entry_insert(cs, name, c)[i]).0 == name
            ==> entry_insert(cs, name, c)[i].1 == c,
        forall|i: int| 0 <= i < cs.len() && (#[trigger] cs[i]).0 != name ==> entry_insert(cs, name, c)[i] == cs[i],
        entry_insert(cs, name, c).len() >= cs.len(),
{
    let after = entry_insert(cs, name, c);
    if has_entry(cs, name) {
        let k = choose|k: int| 0 <= k < cs.len() && (#[trigger] cs[k]).0 == name;
        assert(after[k] == (name, c));
    } else {
        assert(after[cs.len() as int] == (name, c));
    }
}

/// Why content could not be encoded or decoded.
#[derive(Debug)]
pub enum CodecError {
    EncodingFailed(String),
    DecodingFailed(String),
    SyntaxError { position: usize, message: String },
    UnsupportedType(String),
    MissingField(String),
}

/// The human-readable text of an error.
pub open spec fn codec_error_text(e: CodecError) -> Seq<char> {
    match e {
        CodecError::EncodingFailed(m) => "Encoding failed: "@ + m@,
        CodecError::DecodingFailed(m) => "Decoding failed: "@ + m@,
        CodecError::SyntaxError { position, message } =>
            "Invalid syntax at position "@ + decimal(position as nat) + ": "@ + message@,
        CodecError::UnsupportedType(t) => "Unsupported content type: "@ + t@,
        CodecError::MissingField(f) => "Missing required field: "@ + f@,
    }
}

impl CodecError {
    /// The error as text.
    pub fn message(&self) -> (r: String)
        ensures
            r@ == codec_error_text(*self),
    {
        let mut r = String::new();
        match self {
            CodecError::EncodingFailed(m) => {
                r.append("Encoding failed: ");
                r.append(m.as_str());
            },
            CodecError::DecodingFailed(m) => {
                r.append("Decoding failed: ");
                r.append(m.as_str());
            },
            CodecError::SyntaxError { position, message } => {
                r.append("Invalid syntax at position ");
                push_decimal(&mut r, *position as u64);
                r.append(": ");
                r.append(message.as_str());
            },
            CodecError::UnsupportedType(t) => {
                r.append("Unsupported content type: ");
                r.append(t.as_str());
            },
            CodecError::MissingField(f) => {
                r.append("Missing required field: ");
                r.append(f.as_str());
            },
        }
        r
    }
}

/// Two spaces per level of nesting.
pub open spec fn indent_text(n: nat) -> Seq<char>
    decreases n,
{
    if n == 0 {
        Seq::empty()
    } else {
        indent_text((n - 1) as nat) + "  "@
    }
}

/// A string value with a backslash before each double quote.
pub open spec fn escape_quotes(v: Seq<char>) -> Seq<char>
    decreases v.len(),
{
    if v.len() == 0 {
        Seq::empty()
    } else if v.last() == '"' {
        escape_quotes(v.drop_last()) + seq!['\\', '"']
    } else {
        escape_quotes(v.drop_last()).push(v.last())
    }
}

/// An integer in decimal, with a leading minus sign when negative.
pub open spec fn int_decimal(v: int) -> Seq<char> {
    if v < 0 {
        seq!['-'] + decimal((-v) as nat)
    } else {
        decimal(v as nat)
    }
}

/// A slot line at this nesting: `:name value`.
pub open spec fn slot_line(indent: nat, name: Seq<char>, value: Seq<char>) -> Seq<char> {
    indent_text(indent) + ":"@ + name + " "@ + value + "\n"@
}

/// A content encoder as plain values: the text so far and the nesting.
pub struct EncoderView {
    pub text: Seq<char>,
    pub indent: nat,
}

/// The encoder after opening a concept.
pub open spec fn encoder_concept(e: EncoderView, name: Seq<char>) -> EncoderView {
    EncoderView { text: e.text + indent_text(e.indent) + "("@ + name + "\n"@, indent: e.indent + 1 }
}

/// The encoder after closing a concept.
pub open spec fn encoder_end(e: EncoderView) -> EncoderView {
    let indent: nat = if e.indent > 0 { (e.indent - 1) as nat } else { 0 };
    EncoderView { text: e.text + indent_text(indent) + ")\n"@, indent }
}

/// Closing a concept returns to the nesting it was opened at, and its `)`
/// line is indented as its `(` line was.
pub proof fn law_concept_end_balance(e: EncoderView, name: Seq<char>)
    ensures
        encoder_end(encoder_concept(e, name)).indent == e.indent,
        encoder_end(encoder_concept(e, name)).text
            == e.text + indent_text(e.indent) + "("@ + name + "\n"@ + indent_text(e.indent) + ")\n"@,
{
}

/// Renders content as indented S-expressions, for debugging.
pub struct StringEncoder {
    buffer: String,
    indent: usize,
}

impl View for StringEncoder {
    type V = EncoderView;

    closed spec fn view(&self) -> EncoderView {
        EncoderView { text: self.buffer@, indent: self.indent as nat }
    }
}

impl StringEncoder {
    /// An empty encoder.
    pub fn new() -> (e: Self)
        ensures
            e@.text.len() == 0,
            e@.indent == 0,
    {
        StringEncoder { buffer: String::new(), indent: 0 }
    }

    /// The current nesting depth.
    pub fn depth(&self) -> (d: usize)
        ensures
            d == self@.indent,
    {
        self.indent
    }

    fn write_indent(&mut self)
        ensures
            final(self)@ == (EncoderView { text: old(self)@.text + indent_text(old(self)@.indent), ..old(self)@ }),
    {
        let mut k: usize = 0;
        while k < self.indent
            invariant
                k <= self.indent,
                self.indent == old(self).indent,
                self.buffer@ == old(self).buffer@ + indent_text(k as nat),
            decreases self.indent - k,
        {
            self.buffer.append("  ");
            k = k + 1;
        }
    }

    /// Open a concept: `(name` on its own line, one level deeper after it.
    pub fn concept(&mut self, name: &str) -> (r: &mut Self)
        requires
            old(self)@.indent < usize::MAX,
        ensures
            *final(self) == *final(r),
            r@ == encoder_concept(old(self)@, name@),
    {
        self.write_indent();
        self.buffer.append("(");
        self.buffer.append(name);
        self.buffer.append("\n");
        self.indent = self.indent + 1;
        self
    }

    fn push_escaped(&mut self, value: &str)
        ensures
            final(self)@ == (EncoderView { text: old(self)@.text + escape_quotes(value@), ..old(self)@ }),
    {
        let n = value.unicode_len();
        let mut i: usize = 0;
        while i < n
            invariant
                n == value@.len(),
                i <= n,
                self.indent == old(self).indent,
                self.buffer@ == old(self).buffer@ + escape_quotes(value@.take(i as int)),
            decreases n - i,
        {
            let c = value.get_char(i);
            assert(value@.take(i + 1).drop_last() =~= value@.take(i as int));
            if c == '"' {
                push_char(&mut self.buffer, '\\');
            }
            push_char(&mut self.buffer, c);
            assert(self.buffer@ =~= old(self).buffer@ + escape_quotes(value@.take(i + 1)));
            i = i + 1;
        }
        assert(value@.take(n as int) =~= value@);
    }

    fn push_slot_head(&mut self, name: &str)
        ensures
            final(self)@ == (EncoderView {
                text: old(self)@.text + indent_text(old(self)@.indent) + ":"@ + name@ + " "@,
                ..old(self)@
            }),
    {
        self.write_indent();
        self.buffer.append(":");
        self.buffer.append(name);
        self.buffer.append(" ");
    }

    /// A string slot: `:name "value"`, with each double quote in the value
    /// escaped by a backslash.
    pub fn slot_string(&mut self, name: &str, value: &str) -> (r: &mut Self)
        ensures
            *final(self) == *final(r),
            r@ == (EncoderView {
                text: old(self)@.text + slot_line(old(self)@.indent, name@, "\""@ + escape_quotes(value@) + "\""@),
                ..old(self)@
            }),
    {
        self.push_slot_head(name);
        self.buffer.append("\"");
        self.push_escaped(value);
        self.buffer.append("\"");
        self.buffer.append("\n");
        assert(self.buffer@ =~= old(self)@.text + slot_line(old(self)@.indent, name@, "\""@ + escape_quotes(value@) + "\""@));
        self
    }

    /// An integer slot: `:name value` in decimal.
    pub fn slot_int(&mut self, name: &str, value: i64) -> (r: &mut Self)
        ensures
            *final(self) == *final(r),
            r@ == (EncoderView {
                text: old(self)@.text + slot_line(old(self)@.indent, name@, int_decimal(value as int)),
                ..old(self)@
            }),
    {
        self.push_slot_head(name);
        if value < 0 {
            push_char(&mut self.buffer, '-');
            let magnitude: u64 = if value == i64::MIN {
                9223372036854775808u64
            } else {
                (-value) as u64
            };
            push_decimal(&mut self.buffer, magnitude);
        } else {
            push_decimal(&mut self.buffer, value as u64);
        }
        self.buffer.append("\n");
        assert(self.buffer@ =~= old(self)@.text + slot_line(old(self)@.indent, name@, int_decimal(value as int)));
        self
    }

    /// A slot whose value is already rendered: `:name text`.
    pub fn slot_text(&mut self, name: &str, text: &str) -> (r: &mut Self)
        ensures
            *final(self) == *final(r),
            r@ == (EncoderView {
                text: old(self)@.text + slot_line(old(self)@.indent, name@, text@),
                ..old(self)@
            }),
    {
        self.push_slot_head(name);
        self.buffer.append(text);
        self.buffer.append("\n");
        assert(self.buffer@ =~= old(self)@.text + slot_line(old(self)@.indent, name@, text@));
        self
    }

    /// A boolean slot: `:name true` or `:name false`.
    pub fn slot_bool(&mut self, name: &str, value: bool) -> (r: &mut Self)
        ensures
            *final(self) == *final(r),
            r@ == (EncoderView {
                text: old(self)@.text + slot_line(old(self)@.indent, name@, if value { "true"@ } else { "false"@ }),
                ..old(self)@
            }),
    {
        self.slot_text(name, if value { "true" } else { "false" })
    }

    /// Close the current concept: `)` on its own line, one level up (never
    /// below the top).
    pub fn end(&mut self) -> (r: &mut Self)
        ensures
            *final(self) == *final(r),
            r@ == encoder_end(old(self)@),
    {
        if self.indent > 0 {
            self.indent = self.indent - 1;
        }
        self.write_indent();
        self.buffer.append(")\n");
        self
    }

    /// The text so far, as UTF-8 bytes.
    pub fn build(&self) -> (b: Vec<u8>)
        ensures
            b@ == vstd::utf8::encode_utf8(self@.text),
    {
        str_bytes(self.buffer.as_str())
    }
}

impl Default for StringEncoder {
    fn default() -> (e: Self)
        ensures
            e@.text.len() == 0,
            e@.indent == 0,
    {
        StringEncoder::new()
    }
}

} // verus!

//! Log records and the text formats that render them.
//!
//! A record carries its fields as an ordered list of key-value pairs whose
//! last entry is the message. Every format renders the message first and the
//! remaining fields after it, in the order in which they were given.

use vstd::prelude::*;
use vstd::string::StringExecFns;
use vstd::utf8::encode_utf8;

use crate::json::{
    is_plain, json_member, json_members, json_object, lemma_json_members_concat,
    lemma_json_object_is_plain, lemma_json_object_reads_back, push_json_member,
    read_json_object,
};
use crate::level::LogLevel;
use crate::style::{colored, colored_text, cyan, cyan_text, dimmed, dimmed_text, red, red_text};
use crate::text::{decimal, push_decimal};
use crate::timestamp::{clock_text, instant_text, Timestamp};

verus! {

broadcast use vstd::std_specs::slice::group_slice_axioms;

/// The text encodings of a record.
#[derive(Clone, Copy, Debug, PartialEq, Eq, Structural)]
pub enum LogFormat {
    /// One coloured line for people who read a terminal.
    Pretty,
    /// `key=value` pairs like `Compact`, with the colours of `Pretty`.
    PrettyStructured,
    /// One line of plain `key=value` pairs.
    Compact,
    /// One JSON object per line.
    Json,
}

/// One event to be logged.
///
/// `kv` holds the fields in the order in which they were given; its last
/// entry is the message. A record without any field has no message and
/// cannot be rendered.
#[derive(Clone, Copy, Debug)]
pub struct Log<'a> {
    pub timestamp: Timestamp,
    pub level: LogLevel,
    pub kv: &'a [(&'a str, &'a str)],
    pub module: &'a str,
    pub file: &'a str,
    pub line: u32,
}

/// A key and its value, as text.
pub type Field = (Seq<char>, Seq<char>);

/// What a record holds, as mathematical values.
pub struct LogView {
    /// Milliseconds since the epoch.
    pub millis: int,
    pub level: LogLevel,
    pub module: Seq<char>,
    pub file: Seq<char>,
    pub line: nat,
    /// The fields in the order given; the last one is the message.
    pub fields: Seq<Field>,
}

/// The text of each key and value of `kv`, in order.
pub open spec fn fields_of(kv: Seq<(&str, &str)>) -> Seq<Field> {
    Seq::new(kv.len(), |i: int| (kv[i].0@, kv[i].1@))
}

impl<'a> View for Log<'a> {
    type V = LogView;

    open spec fn view(&self) -> LogView {
        LogView {
            millis: self.timestamp@,
            level: self.level,
            module: self.module@,
            file: self.file@,
            line: self.line as nat,
            fields: fields_of(self.kv@),
        }
    }
}

/// How one field that is not the message is written in `format`, with what
/// separates it from the next one.
pub open spec fn field_text(field: Field, format: LogFormat) -> Seq<char> {
    match format {
        LogFormat::Pretty => dimmed_text(field.0) + dimmed_text("="@) + field.1 + " "@,
        LogFormat::PrettyStructured => dimmed_text(field.0) + dimmed_text("="@) + cyan_text(
            field.1,
        ) + " "@,
        LogFormat::Compact => field.0 + "="@ + field.1 + " "@,
        LogFormat::Json => json_member(field.0, field.1) + seq![','],
    }
}

/// The fields written one after the other, first to last.
pub open spec fn fields_text(fields: Seq<Field>, format: LogFormat) -> Seq<char>
    decreases fields.len(),
{
    if fields.len() == 0 {
        Seq::empty()
    } else {
        fields_text(fields.drop_last(), format) + field_text(fields.last(), format)
    }
}

impl LogView {
    /// Whether the record has a message.
    pub open spec fn has_message(self) -> bool {
        self.fields.len() > 0
    }

    /// The message: the value of the last field.
    pub open spec fn message(self) -> Seq<char> {
        self.fields.last().1
    }

    /// The fields before the message.
    pub open spec fn attributes(self) -> Seq<Field> {
        self.fields.drop_last()
    }

    /// Where the record was made: `<file>:<line>`.
    pub open spec fn source(self) -> Seq<char> {
        self.file + ":"@ + decimal(self.line)
    }

    /// The message as the pretty formats show it: in red for `Error` and
    /// `Fatal`, plain otherwise.
    pub open spec fn shown_message(self) -> Seq<char> {
        if self.level.spec_is_failure() {
            red_text(self.message())
        } else {
            self.message()
        }
    }

    /// The text that `format` writes for the record's timestamp: the time of
    /// day in the `Pretty` format, the date and the time of day in the others.
    pub open spec fn stamp(self, format: LogFormat) -> Seq<char> {
        if format == LogFormat::Pretty {
            clock_text(self.millis)
        } else {
            instant_text(self.millis)
        }
    }

    /// The start of the line in `format`, up to and including the message,
    /// with `stamp` as the text of the timestamp.
    pub open spec fn head_with(self, format: LogFormat, stamp: Seq<char>) -> Seq<char> {
        match format {
            LogFormat::Pretty => dimmed_text(stamp) + " "@ + colored_text(
                self.level.spec_tag(),
                self.level.spec_fg_color(),
            ) + " "@ + self.shown_message() + " "@,
            LogFormat::PrettyStructured => dimmed_text("ts="@) + dimmed_text(stamp) + " "@
                + dimmed_text("level="@) + colored_text(
                self.level.spec_name(),
                self.level.spec_fg_color(),
            ) + " "@ + dimmed_text("message="@) + "\""@ + self.shown_message() + "\" "@,
            LogFormat::Compact => "ts="@ + stamp + " level="@ + self.level.spec_name()
                + " message=\""@ + self.message() + "\" "@,
            LogFormat::Json => seq!['{'] + json_member("ts"@, stamp) + seq![','] + json_member(
                "level"@,
                self.level.spec_name(),
            ) + seq![','] + json_member("message"@, self.message()) + seq![','],
        }
    }

    /// The start of the line in `format`, up to and including the message.
    pub open spec fn head(self, format: LogFormat) -> Seq<char> {
        self.head_with(format, self.stamp(format))
    }

    /// The end of the line in `format`: the module, the source and the
    /// newline.
    pub open spec fn tail(self, format: LogFormat) -> Seq<char> {
        match format {
            LogFormat::Pretty => dimmed_text("mod="@) + self.module + " "@ + dimmed_text("src="@)
                + self.source() + " "@ + "\n"@,
            LogFormat::PrettyStructured => dimmed_text("mod="@ + self.module) + " "@ + dimmed_text(
                "src="@ + self.source(),
            ) + " "@ + "\n"@,
            LogFormat::Compact => "mod="@ + self.module + " src="@ + self.source() + "\n"@,
            LogFormat::Json => json_member("mod"@, self.module) + seq![','] + json_member(
                "src"@,
                self.source(),
            ) + seq!['}'] + "\n"@,
        }
    }

    /// The line in `format` with `stamp` as the text of the timestamp: the
    /// head with the message, then the other fields in the order in which
    /// they were given, then the tail.
    pub open spec fn render_with(self, format: LogFormat, stamp: Seq<char>) -> Seq<char> {
        self.head_with(format, stamp) + fields_text(self.attributes(), format) + self.tail(format)
    }

    /// The line in `format`.
    pub open spec fn render(self, format: LogFormat) -> Seq<char> {
        self.render_with(format, self.stamp(format))
    }

    /// The `Pretty` line.
    pub open spec fn pretty(self) -> Seq<char> {
        self.render(LogFormat::Pretty)
    }

    /// The `PrettyStructured` line.
    pub open spec fn pretty_structured(self) -> Seq<char> {
        self.render(LogFormat::PrettyStructured)
    }

    /// The `Compact` line.
    pub open spec fn compact(self) -> Seq<char> {
        self.render(LogFormat::Compact)
    }

    /// The `Json` line: the object with the members of the record, followed
    /// by a newline. Every key and every value is escaped.
    pub open spec fn json(self) -> Seq<char> {
        self.render(LogFormat::Json)
    }

    /// The members of the record's JSON object with `stamp` as the text of
    /// the timestamp: the timestamp, the level and the message, then the
    /// other fields in the order in which they were given, then the module
    /// and the source.
    pub open spec fn members_with(self, stamp: Seq<char>) -> Seq<Field> {
        seq![("ts"@, stamp), ("level"@, self.level.spec_name()), ("message"@, self.message())]
            + self.attributes() + seq![("mod"@, self.module), ("src"@, self.source())]
    }

    /// The members of the record's JSON object.
    pub open spec fn members(self) -> Seq<Field> {
        self.members_with(instant_text(self.millis))
    }
}

/// Appends one field that is not the message.
fn push_field(out: &mut String, key: &str, value: &str, format: LogFormat)
    ensures
        final(out)@ == old(out)@ + field_text((key@, value@), format),
{
    match format {
        LogFormat::Pretty => {
            out.append(dimmed(key).as_str());
            out.append(dimmed("=").as_str());
            out.append(value);
            out.append(" ");
        },
        LogFormat::PrettyStructured => {
            out.append(dimmed(key).as_str());
            out.append(dimmed("=").as_str());
            out.append(cyan(value).as_str());
            out.append(" ");
        },
        LogFormat::Compact => {
            out.append(key);
            out.append("=");
            out.append(value);
            out.append(" ");
        },
        LogFormat::Json => {
            push_json_member(out, key, value);
            out.push(',');
        },
    }
}

/// Appends every field but the last, first to last.
fn push_attributes(out: &mut String, kv: &[(&str, &str)], format: LogFormat)
    requires
        kv@.len() > 0,
    ensures
        final(out)@ == old(out)@ + fields_text(fields_of(kv@).drop_last(), format),
{
    let ghost before = out@;
    let ghost attributes = fields_of(kv@).drop_last();
    let count: usize = kv.len() - 1;
    let mut i: usize = 0;
    while i < count
        invariant
            i <= count,
            count == kv@.len() - 1,
            attributes == fields_of(kv@).drop_last(),
            out@ == before + fields_text(attributes.subrange(0, i as int), format),
        decreases count - i,
    {
        let key: &str = kv[i].0;
        let value: &str = kv[i].1;
        push_field(out, key, value, format);
        proof {
            let next = attributes.subrange(0, i + 1);
            assert(next.drop_last() =~= attributes.subrange(0, i as int));
        }
        i = i + 1;
    }
    assert(attributes.subrange(0, count as int) =~= attributes);
}

impl<'a> Log<'a> {
    /// The message: the value of the last field.
    pub fn message(&self) -> (text: &'a str)
        requires
            self@.has_message(),
        ensures
            text@ == self@.message(),
    {
        self.kv[self.kv.len() - 1].1
    }

    /// Where the record was made: `<file>:<line>`.
    pub fn source(&self) -> (text: String)
        ensures
            text@ == self@.source(),
    {
        let mut out = String::new();
        out.append(self.file);
        out.append(":");
        push_decimal(&mut out, self.line as u64);
        out
    }

    /// The message as the pretty formats show it.
    fn shown_message(&self) -> (text: String)
        requires
            self@.has_message(),
        ensures
            text@ == self@.shown_message(),
    {
        if self.level.is_failure() {
            red(self.message())
        } else {
            let mut out = String::new();
            out.append(self.message());
            out
        }
    }

    /// The `Pretty` line with `stamp` as the text of the timestamp: the
    /// stamp, the level's tag, the message, the other fields, the module and
    /// the source.
    pub fn pretty_with(&self, stamp: &str) -> (text: String)
        requires
            self@.has_message(),
        ensures
            text@ == self@.render_with(LogFormat::Pretty, stamp@),
    {
        let mut out = dimmed(stamp);
        out.append(" ");
        out.append(colored(self.level.tag(), self.level.fg_color()).as_str());
        out.append(" ");
        out.append(self.shown_message().as_str());
        out.append(" ");
        assert(out@ =~= self@.head_with(LogFormat::Pretty, stamp@));
        push_attributes(&mut out, self.kv, LogFormat::Pretty);
        let ghost body = out@;
        out.append(dimmed("mod=").as_str());
        out.append(self.module);
        out.append(" ");
        out.append(dimmed("src=").as_str());
        out.append(self.source().as_str());
        out.append(" ");
        out.append("\n");
        assert(out@ =~= body + self@.tail(LogFormat::Pretty));
        out
    }

    /// The `PrettyStructured` line with `stamp` as the text of the
    /// timestamp: coloured `key=value` pairs.
    pub fn pretty_structured_with(&self, stamp: &str) -> (text: String)
        requires
            self@.has_message(),
        ensures
            text@ == self@.render_with(LogFormat::PrettyStructured, stamp@),
    {
        let mut out = dimmed("ts=");
        out.append(dimmed(stamp).as_str());
        out.append(" ");
        out.append(dimmed("level=").as_str());
        out.append(colored(self.level.name(), self.level.fg_color()).as_str());
        out.append(" ");
        out.append(dimmed("message=").as_str());
        out.append("\"");
        out.append(self.shown_message().as_str());
        out.append("\" ");
        assert(out@ =~= self@.head_with(LogFormat::PrettyStructured, stamp@));
        push_attributes(&mut out, self.kv, LogFormat::PrettyStructured);
        let ghost body = out@;
        let mut module = String::new();
        module.append("mod=");
        module.append(self.module);
        out.append(dimmed(module.as_str()).as_str());
        out.append(" ");
        let mut source = String::new();
        source.append("src=");
        source.append(self.source().as_str());
        out.append(dimmed(source.as_str()).as_str());
        out.append(" ");
        out.append("\n");
        assert(out@ =~= body + self@.tail(LogFormat::PrettyStructured));
        out
    }

    /// The `Compact` line with `stamp` as the text of the timestamp: plain
    /// `key=value` pairs.
    pub fn compact_with(&self, stamp: &str) -> (text: String)
        requires
            self@.has_message(),
        ensures
            text@ == self@.render_with(LogFormat::Compact, stamp@),
    {
        let mut out = String::new();
        out.append("ts=");
        out.append(stamp);
        out.append(" level=");
        out.append(self.level.name());
        out.append(" message=\"");
        out.append(self.message());
        out.append("\" ");
        assert(out@ =~= self@.head_with(LogFormat::Compact, stamp@));
        push_attributes(&mut out, self.kv, LogFormat::Compact);
        let ghost body = out@;
        out.append("mod=");
        out.append(self.module);
        out.append(" src=");
        out.append(self.source().as_str());
        out.append("\n");
        assert(out@ =~= body + self@.tail(LogFormat::Compact));
        out
    }

    /// The `Json` line with `stamp` as the text of the timestamp: one JSON
    /// object.
    pub fn json_with(&self, stamp: &str) -> (text: String)
        requires
            self@.has_message(),
        ensures
            text@ == self@.render_with(LogFormat::Json, stamp@),
    {
        let mut out = String::new();
        out.push('{');
        push_json_member(&mut out, "ts", stamp);
        out.push(',');
        push_json_member(&mut out, "level", self.level.name());
        out.push(',');
        push_json_member(&mut out, "message", self.message());
        out.push(',');
        assert(out@ =~= self@.head_with(LogFormat::Json, stamp@));
        push_attributes(&mut out, self.kv, LogFormat::Json);
        let ghost body = out@;
        push_json_member(&mut out, "mod", self.module);
        out.push(',');
        push_json_member(&mut out, "src", self.source().as_str());
        out.push('}');
        out.append("\n");
        assert(out@ =~= body + self@.tail(LogFormat::Json));
        out
    }

    /// The line in the given format with `stamp` as the text of the
    /// timestamp.
    pub fn render_with(&self, format: &LogFormat, stamp: &str) -> (text: String)
        requires
            self@.has_message(),
        ensures
            text@ == self@.render_with(*format, stamp@),
    {
        match format {
            LogFormat::Pretty => self.pretty_with(stamp),
            LogFormat::PrettyStructured => self.pretty_structured_with(stamp),
            LogFormat::Compact => self.compact_with(stamp),
            LogFormat::Json => self.json_with(stamp),
        }
    }

    /// The text that `format` writes for the record's timestamp.
    pub fn stamp(&self, format: &LogFormat) -> (text: String)
        ensures
            text@ == self@.stamp(*format),
    {
        match format {
            LogFormat::Pretty => self.timestamp.clock(),
            _ => self.timestamp.instant(),
        }
    }

    /// Renders the record in the given format.
    pub fn render(&self, format: &LogFormat) -> (text: String)
        requires
            self@.has_message(),
        ensures
            text@ == self@.render(*format),
    {
        self.render_with(format, self.stamp(format).as_str())
    }

    /// Renders the record as one coloured line: the time of day, the level's
    /// tag, the message, the other fields, the module and the source.
    pub fn pretty(&self) -> (text: String)
        requires
            self@.has_message(),
        ensures
            text@ == self@.pretty(),
    {
        self.render(&LogFormat::Pretty)
    }

    /// Renders the record as one coloured line of `key=value` pairs.
    pub fn pretty_structured(&self) -> (text: String)
        requires
            self@.has_message(),
        ensures
            text@ == self@.pretty_structured(),
    {
        self.render(&LogFormat::PrettyStructured)
    }

    /// Renders the record as one line of plain `key=value` pairs.
    pub fn compact(&self) -> (text: String)
        requires
            self@.has_message(),
        ensures
            text@ == self@.compact(),
    {
        self.render(&LogFormat::Compact)
    }

    /// Renders the record as one JSON object on one line.
    pub fn json(&self) -> (text: String)
        requires
            self@.has_message(),
        ensures
            text@ == self@.json(),
    {
        self.render(&LogFormat::Json)
    }

    /// Appends the record's line in the given format to `w`, encoded as
    /// UTF-8.
    pub fn write(&self, w: &mut Vec<u8>, format: &LogFormat)
        requires
            self@.has_message(),
        ensures
            final(w)@ == old(w)@ + encode_utf8(self@.render(*format)),
    {
        let text = self.render(format);
        w.extend_from_slice(text.as_str().as_bytes());
    }
}

/// Rendering is a function of what the record holds: two records with the
/// same contents, rendered in the same format, give the same line, character
/// for character.
pub proof fn lemma_render_deterministic(a: Log, b: Log, format: LogFormat)
    requires
        a@ == b@,
    ensures
        a@.render(format) == b@.render(format),
        encode_utf8(a@.render(format)) == encode_utf8(b@.render(format)),
{
}

/// The fields are written one after the other: the text of two lists in a
/// row is the text of the first followed by the text of the second.
pub proof fn lemma_fields_text_concat(a: Seq<Field>, b: Seq<Field>, format: LogFormat)
    ensures
        fields_text(a + b, format) == fields_text(a, format) + fields_text(b, format),
    decreases b.len(),
{
    if b.len() == 0 {
        assert(a + b =~= a);
        assert(fields_text(a, format) + fields_text(b, format) =~= fields_text(a, format));
    } else {
        lemma_fields_text_concat(a, b.drop_last(), format);
        assert((a + b).drop_last() =~= a + b.drop_last());
        assert((a + b).last() == b.last());
        assert(fields_text(a + b, format) =~= fields_text(a, format) + fields_text(b, format));
    }
}

/// A field is written where it stood in the list: behind the fields that
/// were given before it and before those that were given after it.
pub proof fn lemma_field_keeps_its_place(fields: Seq<Field>, format: LogFormat, i: int)
    requires
        0 <= i < fields.len(),
    ensures
        fields_text(fields, format) == fields_text(fields.subrange(0, i), format) + field_text(
            fields[i],
            format,
        ) + fields_text(fields.subrange(i + 1, fields.len() as int), format),
{
    let before = fields.subrange(0, i);
    let after = fields.subrange(i + 1, fields.len() as int);
    assert(fields =~= before + seq![fields[i]] + after);
    lemma_fields_text_concat(before + seq![fields[i]], after, format);
    lemma_fields_text_concat(before, seq![fields[i]], format);
    assert(fields_text(seq![fields[i]], format) == field_text(fields[i], format)) by {
        assert(seq![fields[i]].drop_last() =~= Seq::<Field>::empty());
        assert(fields_text(seq![fields[i]].drop_last(), format) =~= Seq::<char>::empty());
        assert(Seq::<char>::empty() + field_text(fields[i], format) =~= field_text(
            fields[i],
            format,
        ));
    }
}

/// Every format keeps the order of the fields. The line is the head with
/// the message, then the fields that were given before the `i`-th one, then
/// the `i`-th one, then those that were given after it, then the tail.
pub proof fn lemma_attribute_keeps_its_place(log: LogView, format: LogFormat, i: int)
    requires
        log.has_message(),
        0 <= i < log.attributes().len(),
    ensures
        log.render(format) == log.head(format) + (fields_text(
            log.attributes().subrange(0, i),
            format,
        ) + field_text(log.attributes()[i], format) + fields_text(
            log.attributes().subrange(i + 1, log.attributes().len() as int),
            format,
        )) + log.tail(format),
{
    lemma_field_keeps_its_place(log.attributes(), format, i);
}

/// The message is the value of the last field, whatever its key: the key is
/// not written, and two records that differ in it alone give the same line.
pub proof fn lemma_message_key_is_not_written(log: LogView, key: Seq<char>, format: LogFormat)
    requires
        log.has_message(),
    ensures
        (LogView { fields: log.attributes().push((key, log.message())), ..log }).render(format)
            == log.render(format),
{
    let other = LogView { fields: log.attributes().push((key, log.message())), ..log };
    assert(other.attributes() =~= log.attributes());
    assert(other.message() == log.message());
}

/// The fields of a record are written in the `Json` format as the members
/// of an object are.
pub proof fn lemma_json_fields_are_members(fields: Seq<Field>)
    ensures
        fields_text(fields, LogFormat::Json) == json_members(fields),
    decreases fields.len(),
{
    if fields.len() > 0 {
        lemma_json_fields_are_members(fields.drop_last());
    }
}

/// Moves the brackets in the text of a line's object.
proof fn lemma_json_line_shape(
    a: Seq<char>,
    b: Seq<char>,
    c: Seq<char>,
    fields: Seq<char>,
    module: Seq<char>,
    source: Seq<char>,
    end: Seq<char>,
)
    ensures
        (seq!['{'] + a + seq![','] + b + seq![','] + c + seq![',']) + fields + (module + seq![
            ',',
        ] + source + seq!['}'] + end) == seq!['{'] + ((a + seq![','] + b + seq![','] + c + seq![
            ',',
        ]) + fields + (module + seq![','])) + source + seq!['}'] + end,
{
    assert((seq!['{'] + a + seq![','] + b + seq![','] + c + seq![',']) + fields + (module + seq![
        ',',
    ] + source + seq!['}'] + end) =~= seq!['{'] + ((a + seq![','] + b + seq![','] + c + seq![
        ',',
    ]) + fields + (module + seq![','])) + source + seq!['}'] + end);
}

/// The text of three members in a row.
proof fn lemma_json_members_three(a: Field, b: Field, c: Field)
    ensures
        json_members(seq![a, b, c]) == json_member(a.0, a.1) + seq![','] + json_member(b.0, b.1)
            + seq![','] + json_member(c.0, c.1) + seq![','],
{
    let all = seq![a, b, c];
    assert(all.drop_last() == seq![a, b]) by {
        assert(all.drop_last() =~= seq![a, b]);
    }
    assert(seq![a, b].drop_last() == seq![a]) by {
        assert(seq![a, b].drop_last() =~= seq![a]);
    }
    assert(json_members(seq![a]) == json_member(a.0, a.1) + seq![',']) by {
        assert(seq![a].drop_last() =~= Seq::<Field>::empty());
        assert(json_members(seq![a].drop_last()) =~= Seq::<char>::empty());
        assert(Seq::<char>::empty() + json_member(a.0, a.1) =~= json_member(a.0, a.1));
    }
    assert(json_members(seq![a, b]) == json_members(seq![a]) + json_member(b.0, b.1) + seq![
        ',',
    ]);
    assert(json_members(all) == json_members(seq![a, b]) + json_member(c.0, c.1) + seq![',']);
}

/// The `Json` line is the object of the record's members, followed by a
/// newline.
pub proof fn lemma_json_line_is_an_object(log: LogView)
    requires
        log.has_message(),
    ensures
        log.json() == json_object(log.members()) + "\n"@,
{
    let ts = ("ts"@, log.stamp(LogFormat::Json));
    let level = ("level"@, log.level.spec_name());
    let message = ("message"@, log.message());
    let module = ("mod"@, log.module);
    let source = ("src"@, log.source());
    let front = seq![ts, level, message];
    let members = log.members();
    let inner = front + log.attributes() + seq![module];
    let fields = fields_text(log.attributes(), LogFormat::Json);
    let front_text = json_member(ts.0, ts.1) + seq![','] + json_member(level.0, level.1) + seq![
        ',',
    ] + json_member(message.0, message.1) + seq![','];
    let module_text = json_member(module.0, module.1) + seq![','];

    assert(members.len() > 0 && members.last() == source && members.drop_last() == inner) by {
        assert(members.drop_last() =~= inner);
    }
    assert(json_members(front) == front_text) by {
        lemma_json_members_three(ts, level, message);
    }
    assert(json_members(seq![module]) == module_text) by {
        assert(seq![module].drop_last() =~= Seq::<Field>::empty());
        assert(json_members(seq![module].drop_last()) =~= Seq::<char>::empty());
        assert(json_members(seq![module]) =~= module_text);
    }
    assert(json_members(inner) == front_text + fields + module_text) by {
        lemma_json_members_concat(front + log.attributes(), seq![module]);
        lemma_json_members_concat(front, log.attributes());
        lemma_json_fields_are_members(log.attributes());
    }
    assert(log.json() == (seq!['{'] + json_member(ts.0, ts.1) + seq![','] + json_member(
        level.0,
        level.1,
    ) + seq![','] + json_member(message.0, message.1) + seq![',']) + fields + (json_member(
        module.0,
        module.1,
    ) + seq![','] + json_member(source.0, source.1) + seq!['}'] + "\n"@));
    lemma_json_line_shape(
        json_member(ts.0, ts.1),
        json_member(level.0, level.1),
        json_member(message.0, message.1),
        fields,
        json_member(module.0, module.1),
        json_member(source.0, source.1),
        "\n"@,
    );
}

/// The `Json` line reads back as the record.
///
/// A JSON parser finds in the line the very members of the record: the
/// timestamp, the level and the message, every other field with its key and
/// its value in the order in which the fields were given, the module and the
/// source. No quote, backslash or control character in a key or a value can
/// change what the parser finds.
pub proof fn lemma_json_line_reads_back(log: LogView)
    requires
        log.has_message(),
    ensures
        read_json_object(log.json()) == Some((log.members(), "\n"@)),
{
    lemma_json_line_is_an_object(log);
    lemma_json_object_reads_back(log.members(), "\n"@);
}

/// The `Json` line is one line: it ends with a newline and holds no other
/// one, nor any other control character, whatever the fields hold.
pub proof fn lemma_json_line_is_one_line(log: LogView)
    requires
        log.has_message(),
    ensures
        log.json() == json_object(log.members()).push('\n'),
        is_plain(json_object(log.members())),
{
    lemma_json_line_is_an_object(log);
    lemma_json_object_is_plain(log.members());
    reveal_strlit("\n");
    assert("\n"@ =~= seq!['\n']);
}

} // verus!

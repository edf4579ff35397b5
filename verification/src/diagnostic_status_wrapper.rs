//! The diagnostic status message and the wrapper that fills it.
use vstd::prelude::*;

use crate::text::{decimal_of_int, decimal_of_nat, i64_to_decimal, u64_to_decimal};

verus! {

/// A key and its value, as a status reports them.
pub struct KeyValue {
    pub key: String,
    pub value: String,
}

impl View for KeyValue {
    type V = (Seq<char>, Seq<char>);

    open spec fn view(&self) -> (Seq<char>, Seq<char>) {
        (self.key@, self.value@)
    }
}

impl Clone for KeyValue {
    fn clone(&self) -> (r: Self)
        ensures
            r@ == self@,
    {
        KeyValue { key: self.key.clone(), value: self.value.clone() }
    }
}

/// The status of one diagnosed component: a level, a name, a message, the
/// hardware it belongs to, and key-value pairs.
pub struct DiagnosticStatus {
    pub level: u8,
    pub name: String,
    pub message: String,
    pub hardware_id: String,
    pub values: Vec<KeyValue>,
}

/// What a status holds, with its strings as character sequences.
pub struct StatusView {
    pub level: u8,
    pub name: Seq<char>,
    pub message: Seq<char>,
    pub hardware_id: Seq<char>,
    pub values: Seq<(Seq<char>, Seq<char>)>,
}

/// The view of a list of key-value pairs.
pub open spec fn values_view(values: Seq<KeyValue>) -> Seq<(Seq<char>, Seq<char>)> {
    values.map_values(|kv: KeyValue| kv@)
}

impl View for DiagnosticStatus {
    type V = StatusView;

    open spec fn view(&self) -> StatusView {
        StatusView {
            level: self.level,
            name: self.name@,
            message: self.message@,
            hardware_id: self.hardware_id@,
            values: values_view(self.values@),
        }
    }
}

impl DiagnosticStatus {
    /// The level of a status that is fine.
    pub const OK: u8 = 0;

    /// The level of a status that warns.
    pub const WARN: u8 = 1;

    /// The level of a status in error.
    pub const ERROR: u8 = 2;

    /// The level of a status that is no longer updated.
    pub const STALE: u8 = 3;

    /// An empty status: level OK, every string empty, no values.
    pub fn new() -> (s: Self)
        ensures
            s@ == empty_status(),
    {
        let s = DiagnosticStatus {
            level: 0,
            name: String::new(),
            message: String::new(),
            hardware_id: String::new(),
            values: Vec::new(),
        };
        assert(values_view(s.values@) =~= Seq::empty());
        s
    }
}

impl Default for DiagnosticStatus {
    fn default() -> (s: Self)
        ensures
            s@ == empty_status(),
    {
        DiagnosticStatus::new()
    }
}

/// Copies a list of key-value pairs.
pub fn copy_values(values: &Vec<KeyValue>) -> (r: Vec<KeyValue>)
    ensures
        values_view(r@) == values_view(values@),
{
    let mut r: Vec<KeyValue> = Vec::new();
    let n = values.len();
    for i in 0..n
        invariant
            n == values.len(),
            r@.len() == i,
            forall|j: int| 0 <= j < i ==> #[trigger] r@[j]@ == values@[j]@,
    {
        r.push(values[i].clone());
    }
    assert(values_view(r@) =~= values_view(values@));
    r
}

impl Clone for DiagnosticStatus {
    fn clone(&self) -> (r: Self)
        ensures
            r@ == self@,
    {
        DiagnosticStatus {
            level: self.level,
            name: self.name.clone(),
            message: self.message.clone(),
            hardware_id: self.hardware_id.clone(),
            values: copy_values(&self.values),
        }
    }
}

/// The view of an empty status.
pub open spec fn empty_status() -> StatusView {
    StatusView {
        level: 0,
        name: Seq::empty(),
        message: Seq::empty(),
        hardware_id: Seq::empty(),
        values: Seq::empty(),
    }
}

/// The separator between merged messages.
pub open spec fn separator() -> Seq<char> {
    seq![';', ' ']
}

/// Level and message after merging `(level, message)` into `(cur_level,
/// cur_message)`: the greater level wins; when both levels are OK or both are
/// not, the new message is appended after "; " to a non-empty current
/// message, an empty current message is replaced by a new message that is not
/// OK, and a new OK message is ignored when the current one is empty;
/// otherwise the message of the greater level is kept.
pub open spec fn merged_summary(
    cur_level: u8,
    cur_message: Seq<char>,
    level: u8,
    message: Seq<char>,
) -> (u8, Seq<char>) {
    let new_level = if level > cur_level { level } else { cur_level };
    let new_message = if (level > 0) == (cur_level > 0) {
        if cur_message.len() == 0 {
            if level > 0 {
                message
            } else {
                cur_message
            }
        } else {
            cur_message + separator() + message
        }
    } else if level > cur_level {
        message
    } else {
        cur_message
    };
    (new_level, new_message)
}

/// Law: merging keeps the greater of the two levels; when both levels are
/// not OK, the two messages are combined with "; " (an empty current message
/// gives way to the new one, which is never lost); when exactly one level is
/// OK, the message that goes with it is dropped.
pub proof fn lemma_merge_rules(cur_level: u8, cur_message: Seq<char>, level: u8, message: Seq<char>)
    ensures
        merged_summary(cur_level, cur_message, level, message).0 == if level > cur_level {
            level
        } else {
            cur_level
        },
        cur_level > 0 && level > 0 && cur_message.len() > 0 ==> merged_summary(
            cur_level,
            cur_message,
            level,
            message,
        ).1 == cur_message + separator() + message,
        cur_level > 0 && level > 0 && cur_message.len() == 0 ==> merged_summary(
            cur_level,
            cur_message,
            level,
            message,
        ).1 == message,
        cur_level == 0 && level > 0 ==> merged_summary(cur_level, cur_message, level, message).1
            == message,
        cur_level > 0 && level == 0 ==> merged_summary(cur_level, cur_message, level, message).1
            == cur_message,
        cur_level == 0 && level == 0 && cur_message.len() > 0 ==> merged_summary(
            cur_level,
            cur_message,
            level,
            message,
        ).1 == cur_message + seq![';', ' '] + message,
        cur_level == 0 && level == 0 && cur_message.len() == 0 ==> merged_summary(
            cur_level,
            cur_message,
            level,
            message,
        ).1.len() == 0,
        merged_summary(cur_level, cur_message, level, message).1 == cur_message
            || merged_summary(cur_level, cur_message, level, message).1 == message
            || merged_summary(cur_level, cur_message, level, message).1 == cur_message + seq![
            ';',
            ' ',
        ] + message,
{
}

/// Law: setting a summary replaces only the level and the message; adding a
/// pair appends it after the others and changes nothing else; clearing the
/// values empties them and changes nothing else; an empty status is OK with
/// every string empty and no values.
pub proof fn lemma_status_updates(s: StatusView, level: u8, text: Seq<char>, key: Seq<char>)
    ensures
        with_summary(s, level, text).level == level,
        with_summary(s, level, text).message == text,
        with_summary(s, level, text).name == s.name,
        with_summary(s, level, text).hardware_id == s.hardware_id,
        with_summary(s, level, text).values == s.values,
        with_value(s, key, text).values.len() == s.values.len() + 1,
        with_value(s, key, text).values.take(s.values.len() as int) == s.values,
        with_value(s, key, text).values[s.values.len() as int] == (key, text),
        with_value(s, key, text).level == s.level,
        with_value(s, key, text).message == s.message,
        with_value(s, key, text).name == s.name,
        with_value(s, key, text).hardware_id == s.hardware_id,
        without_values(s).values.len() == 0,
        without_values(s).level == s.level,
        without_values(s).message == s.message,
        without_values(s).name == s.name,
        without_values(s).hardware_id == s.hardware_id,
        empty_status().level == 0,
        empty_status().message.len() == 0,
        empty_status().name.len() == 0,
        empty_status().hardware_id.len() == 0,
        empty_status().values.len() == 0,
        bool_text(true) == seq!['t', 'r', 'u', 'e'],
        bool_text(false) == seq!['f', 'a', 'l', 's', 'e'],
{
    assert(with_value(s, key, text).values.take(s.values.len() as int) =~= s.values);
}

/// The status with its level and message replaced.
pub open spec fn with_summary(s: StatusView, level: u8, message: Seq<char>) -> StatusView {
    StatusView { level: level, message: message, ..s }
}

/// The status with the given summary merged into its own (see
/// [`merged_summary`]).
pub open spec fn with_merged(s: StatusView, level: u8, message: Seq<char>) -> StatusView {
    with_summary(
        s,
        merged_summary(s.level, s.message, level, message).0,
        merged_summary(s.level, s.message, level, message).1,
    )
}

/// The status without key-value pairs.
pub open spec fn without_values(s: StatusView) -> StatusView {
    StatusView { values: Seq::empty(), ..s }
}

/// The status with a key-value pair appended.
pub open spec fn with_value(s: StatusView, key: Seq<char>, value: Seq<char>) -> StatusView {
    StatusView { values: s.values.push((key, value)), ..s }
}

/// The text of a boolean value.
pub open spec fn bool_text(b: bool) -> Seq<char> {
    if b {
        seq!['t', 'r', 'u', 'e']
    } else {
        seq!['f', 'a', 'l', 's', 'e']
    }
}

/// A wrapper on a [`DiagnosticStatus`] with helpers to set and merge its
/// summary and to add key-value pairs.
pub struct DiagnosticStatusWrapper {
    /// The status that is filled.
    pub status: DiagnosticStatus,
}

impl View for DiagnosticStatusWrapper {
    type V = StatusView;

    open spec fn view(&self) -> StatusView {
        self.status@
    }
}

impl Default for DiagnosticStatusWrapper {
    fn default() -> (w: Self)
        ensures
            w@ == empty_status(),
    {
        DiagnosticStatusWrapper { status: DiagnosticStatus::new() }
    }
}

impl Clone for DiagnosticStatusWrapper {
    fn clone(&self) -> (r: Self)
        ensures
            r@ == self@,
    {
        DiagnosticStatusWrapper { status: self.status.clone() }
    }
}

impl DiagnosticStatusWrapper {
    /// Sets the level and the message of the status.
    pub fn summary(&mut self, level: u8, message: &str)
        ensures
            final(self)@ == with_summary(old(self)@, level, message@),
    {
        self.status.level = level;
        self.status.message = message.to_owned();
    }

    /// Sets the level and the message from another wrapper.
    pub fn summary_from_status(&mut self, src: &DiagnosticStatusWrapper)
        ensures
            final(self)@ == with_summary(old(self)@, src@.level, src@.message),
    {
        self.summary(src.status.level, src.status.message.as_str());
    }

    /// Merges a level and a message into the current ones (see
    /// [`merged_summary`]).
    pub fn merge_summary(&mut self, level: u8, message: &str)
        ensures
            final(self)@ == with_merged(old(self)@, level, message@),
    {
        if (level > 0) == (self.status.level > 0) {
            if !self.status.message.as_str().is_empty() {
                proof {
                    reveal_strlit("; ");
                    assert("; "@ =~= separator());
                }
                self.status.message.append("; ");
                self.status.message.append(message);
            } else if level > 0 {
                self.status.message = message.to_owned();
            }
        } else if level > self.status.level {
            self.status.message = message.to_owned();
        }
        if level > self.status.level {
            self.status.level = level;
        }
    }

    /// Merges in the level and the message of another status.
    pub fn merge_summary_from_status(&mut self, src: &DiagnosticStatusWrapper)
        ensures
            final(self)@ == with_merged(old(self)@, src@.level, src@.message),
    {
        self.merge_summary(src.status.level, src.status.message.as_str());
    }

    /// Merges in the level and the message of another wrapper.
    pub fn merge_summary_from_wrapper(&mut self, src: &Self)
        ensures
            final(self)@ == with_merged(old(self)@, src@.level, src@.message),
    {
        self.merge_summary(src.status.level, src.status.message.as_str());
    }

    /// Clears the summary: level OK and an empty message.
    pub fn clear_summary(&mut self)
        ensures
            final(self)@ == with_summary(old(self)@, 0, Seq::empty()),
    {
        proof {
            reveal_strlit("");
            assert(""@ =~= Seq::<char>::empty());
        }
        self.summary(0, "");
    }

    /// Removes every key-value pair.
    pub fn clear(&mut self)
        ensures
            final(self)@ == without_values(old(self)@),
    {
        self.status.values.clear();
        assert(values_view(self.status.values@) =~= Seq::empty());
    }

    /// Appends a key-value pair.
    pub fn add(&mut self, key: &str, value: &str)
        ensures
            final(self)@ == with_value(old(self)@, key@, value@),
    {
        let kv = KeyValue { key: key.to_owned(), value: value.to_owned() };
        self.status.values.push(kv);
        assert(values_view(self.status.values@) =~= values_view(old(self).status.values@).push(
            (key@, value@),
        ));
    }

    /// Appends a key-value pair whose value is a boolean.
    pub fn add_bool(&mut self, key: &str, value: bool)
        ensures
            final(self)@ == with_value(old(self)@, key@, bool_text(value)),
    {
        if value {
            proof {
                reveal_strlit("true");
                assert("true"@ =~= bool_text(true));
            }
            self.add(key, "true");
        } else {
            proof {
                reveal_strlit("false");
                assert("false"@ =~= bool_text(false));
            }
            self.add(key, "false");
        }
    }

    /// Appends a key-value pair whose value is an unsigned integer, in decimal.
    pub fn add_u64(&mut self, key: &str, value: u64)
        ensures
            final(self)@ == with_value(old(self)@, key@, decimal_of_nat(value as nat)),
    {
        let text = u64_to_decimal(value);
        self.add(key, text.as_str());
    }

    /// Appends a key-value pair whose value is a signed integer, in decimal.
    pub fn add_i64(&mut self, key: &str, value: i64)
        ensures
            final(self)@ == with_value(old(self)@, key@, decimal_of_int(value as int)),
    {
        let text = i64_to_decimal(value);
        self.add(key, text.as_str());
    }
}

} // verus!

//! Turns the description of a configuration (a tree of [`ConfigValue`]s)
//! into the flat list of console entries (path, usage text, argument kind).

use vstd::prelude::*;

use crate::text::{
    chars_of, int_text, lowercase, nat_text, push_char, push_chars, push_i64_text,
    push_u64_text, seq_starts_with, starts_with, string_of, to_lowercase,
};

verus! {

/// The state while scanning for `[...]` modifiers: the text outside
/// brackets, the finished modifiers, the modifier being read, and the
/// bracket depth.
pub type ModifierScan = (Seq<char>, Seq<Seq<char>>, Seq<char>, int);

/// One step of the modifier scan.
pub open spec fn modifier_step(st: ModifierScan, c: char) -> ModifierScan {
    let (rest, mods, cur, depth) = st;
    if c == '[' {
        (rest, mods, cur, depth + 1)
    } else if c == ']' {
        if depth - 1 == 0 {
            (rest, mods.push(cur), Seq::empty(), 0)
        } else {
            (rest, mods, cur, depth - 1)
        }
    } else if depth == 0 {
        (rest.push(c), mods, cur, depth)
    } else {
        (rest, mods, cur.push(c), depth)
    }
}

/// The modifier scan over a whole string.
pub open spec fn modifier_scan(s: Seq<char>) -> ModifierScan
    decreases s.len(),
{
    if s.len() == 0 {
        (Seq::empty(), Seq::empty(), Seq::empty(), 0)
    } else {
        modifier_step(modifier_scan(s.drop_last()), s.last())
    }
}

/// Splits `in_str` into the text outside of brackets and the list of
/// bracketed modifiers, e.g. `players[0]` into `players` and `["0"]`.
pub fn find_modifiers(in_str: &str) -> (r: (String, Vec<String>))
    ensures
        r.0@ == modifier_scan(in_str@).0,
        r.1@.map_values(|m: String| m@) == modifier_scan(in_str@).1,
{
    let chars = chars_of(in_str);
    let mut modifiers: Vec<String> = Vec::new();
    let mut cur_modifier: Vec<char> = Vec::new();
    let mut str_without_modifiers: Vec<char> = Vec::new();
    let mut brackets: i128 = 0;
    let mut i: usize = 0;
    while i < chars.len()
        invariant
            i <= chars.len(),
            chars@ == in_str@,
            -(i as int) <= brackets <= i,
            modifier_scan(chars@.take(i as int)) == (
                str_without_modifiers@,
                modifiers@.map_values(|m: String| m@),
                cur_modifier@,
                brackets as int,
            ),
        decreases chars.len() - i,
    {
        let c = chars[i];
        let ghost before = modifiers@;
        proof {
            assert(chars@.take(i + 1).drop_last() =~= chars@.take(i as int));
            assert(chars@.take(i + 1).last() == c);
        }
        if c == '[' {
            brackets = brackets + 1;
        } else if c == ']' {
            brackets = brackets - 1;
            if brackets == 0 {
                let m = string_of(&cur_modifier);
                modifiers.push(m);
                cur_modifier = Vec::new();
                assert(modifiers@.map_values(|m: String| m@) =~= before.map_values(
                    |m: String| m@,
                ).push(m@));
            }
        } else if brackets == 0 {
            str_without_modifiers.push(c);
        } else {
            cur_modifier.push(c);
        }
        i = i + 1;
    }
    assert(chars@.take(chars.len() as int) =~= chars@);
    (string_of(&str_without_modifiers), modifiers)
}

/// A string without any bracket is returned as is, with no modifiers.
pub proof fn lemma_find_modifiers_plain(s: Seq<char>)
    requires
        forall|i: int| 0 <= i < s.len() ==> s[i] != '[' && s[i] != ']',
    ensures
        modifier_scan(s) == (s, Seq::<Seq<char>>::empty(), Seq::<char>::empty(), 0int),
    decreases s.len(),
{
    if s.len() > 0 {
        lemma_find_modifiers_plain(s.drop_last());
        assert(s.drop_last().push(s.last()) =~= s);
    } else {
        assert(s =~= Seq::<char>::empty());
    }
}

pub open spec fn bracket_free(s: Seq<char>) -> bool {
    forall|i: int| 0 <= i < s.len() ==> s[i] != '[' && s[i] != ']'
}

proof fn lemma_scan_inside(s: Seq<char>, m: Seq<char>)
    requires
        modifier_scan(s).3 == 1,
        bracket_free(m),
    ensures
        modifier_scan(s + m) == (
            modifier_scan(s).0,
            modifier_scan(s).1,
            modifier_scan(s).2 + m,
            1int,
        ),
    decreases m.len(),
{
    if m.len() == 0 {
        assert(s + m =~= s);
        assert(modifier_scan(s).2 + m =~= modifier_scan(s).2);
    } else {
        let m1 = m.drop_last();
        assert(bracket_free(m1)) by {
            assert forall|i: int| 0 <= i < m1.len() implies m1[i] != '[' && m1[i] != ']' by {
                assert(m1[i] == m[i]);
            }
        }
        lemma_scan_inside(s, m1);
        assert((s + m).drop_last() =~= s + m1);
        assert((s + m).last() == m.last());
        assert(modifier_scan(s).2 + m1 + seq![m.last()] =~= modifier_scan(s).2 + m);
        assert((modifier_scan(s).2 + m1).push(m.last()) =~= modifier_scan(s).2 + m);
    }
}

/// Appending a bracketed modifier without brackets of its own to a text whose
/// brackets are all closed adds that modifier to the end of the list and
/// leaves the text outside brackets as it was.
pub proof fn lemma_find_modifiers_append(s: Seq<char>, m: Seq<char>)
    requires
        modifier_scan(s).3 == 0,
        modifier_scan(s).2 == Seq::<char>::empty(),
        bracket_free(m),
    ensures
        modifier_scan(s + seq!['['] + m + seq![']']) == (
            modifier_scan(s).0,
            modifier_scan(s).1.push(m),
            Seq::<char>::empty(),
            0int,
        ),
{
    let s1 = s + seq!['['];
    assert(s1.drop_last() =~= s);
    assert(s1.last() == '[');
    lemma_scan_inside(s1, m);
    let s2 = s1 + m;
    let s3 = s + seq!['['] + m + seq![']'];
    assert(s3 =~= s2.push(']'));
    assert(s3.drop_last() =~= s2);
    assert(Seq::<char>::empty() + m =~= m);
}

/// The kind of argument a console entry takes.
#[derive(Debug, Clone, Copy, PartialEq, Eq)]
pub enum CommandArgType {
    /// An integer.
    Number,
    /// A floating point number.
    Float,
    /// Free text.
    Text,
    /// A JSON object (or an object-like assignment).
    JsonObjectLike,
    /// A JSON array.
    JsonArrayLike,
}

/// One argument of a console entry.
#[derive(Debug)]
pub struct CommandArg {
    pub ty: CommandArgType,
    pub user_ty: Option<String>,
}

impl View for CommandArg {
    type V = (CommandArgType, Option<Seq<char>>);

    open spec fn view(&self) -> (CommandArgType, Option<Seq<char>>) {
        (
            self.ty,
            match self.user_ty {
                Some(u) => Some(u@),
                None => None,
            },
        )
    }
}

/// An attribute of a configuration struct.
#[derive(Debug)]
pub struct ConfigValueAttr {
    pub name: String,
    pub val: ConfigValue,
    pub description: String,
}

/// The description of a configuration value.
#[derive(Debug)]
#[allow(inconsistent_fields)]
pub enum ConfigValue {
    Struct { attributes: Vec<ConfigValueAttr>, aliases: Vec<(String, String)>, name: String },
    Boolean,
    Int { min: i64, max: u64 },
    /// The bounds are held as their decimal text with four digits after
    /// the point (as `{:.4}` writes them).
    Float { min: String, max: String },
    String { min_length: usize, max_length: usize },
    StringOfList { allowed_values: Vec<String> },
    Array { val_ty: Box<ConfigValue>, min_length: usize, max_length: usize },
    JsonLikeRecord { val_ty: Box<ConfigValue> },
    Color,
}

/// A console entry found for a configuration value.
#[derive(Debug)]
pub struct AddFeedback {
    pub name: String,
    pub usage: String,
    pub description: String,
    pub args: Vec<CommandArg>,
}

/// The view of a console entry.
pub struct AddFeedbackView {
    pub name: Seq<char>,
    pub usage: Seq<char>,
    pub description: Seq<char>,
    pub args: Seq<(CommandArgType, Option<Seq<char>>)>,
}

impl View for AddFeedback {
    type V = AddFeedbackView;

    open spec fn view(&self) -> AddFeedbackView {
        AddFeedbackView {
            name: self.name@,
            usage: self.usage@,
            description: self.description@,
            args: self.args@.map_values(|a: CommandArg| a@),
        }
    }
}

#[derive(Debug, Clone, Copy, PartialEq, Eq)]
pub enum AliasType {
    /// Not an alias.
    NoAlias,
    /// The alias is simply a rename
    /// e.g. `tee` & `character`.
    RenameOnly,
    /// The alias is a rename but also
    /// has modifiers, e.g. for a list
    /// of `players` an alias could be
    /// `main_player` => `players[0]`
    HasModifiers,
}

impl Default for AliasType {
    fn default() -> (r: Self)
        ensures
            r == AliasType::NoAlias,
    {
        AliasType::NoAlias
    }
}

/// The name of a struct value, or the empty text for any other value.
pub open spec fn spec_struct_name(val: ConfigValue) -> Seq<char> {
    match val {
        ConfigValue::Struct { name, .. } => name@,
        _ => Seq::empty(),
    }
}

pub fn struct_name(val: &ConfigValue) -> (r: &str)
    ensures
        r@ == spec_struct_name(*val),
{
    match val {
        ConfigValue::Struct { name, .. } => name.as_str(),
        _ => {
            proof {
                reveal_strlit("");
            }
            ""
        },
    }
}

/// The texts of a list, joined by a separator.
pub open spec fn join_texts(list: Seq<Seq<char>>, sep: Seq<char>) -> Seq<char>
    decreases list.len(),
{
    if list.len() == 0 {
        Seq::empty()
    } else if list.len() == 1 {
        list[0]
    } else {
        join_texts(list.drop_last(), sep) + sep + list.last()
    }
}

/// The usage text of a configuration value.
pub open spec fn spec_usage(val: ConfigValue) -> Seq<char>
    decreases val,
{
    match val {
        ConfigValue::Struct { .. } => Seq::empty(),
        ConfigValue::Boolean => "boolean [true or false]"@,
        ConfigValue::Int { min, max } => "int ["@ + int_text(min as int) + ".."@ + nat_text(
            max as nat,
        ) + "]"@,
        ConfigValue::Float { min, max } => "float ["@ + min@ + ","@ + max@ + "]"@,
        ConfigValue::String { min_length, max_length } => "string, length range ["@ + nat_text(
            min_length as nat,
        ) + ".."@ + nat_text(max_length as nat) + "]"@,
        ConfigValue::Color => "rgb color, supports html syntax (#) & css syntax (rgb())"@,
        ConfigValue::StringOfList { allowed_values } => "string in ["@ + join_texts(
            allowed_values@.map_values(|v: String| v@),
            ", "@,
        ) + "]"@,
        ConfigValue::Array { val_ty, .. } => "array of ["@ + spec_struct_name(*val_ty)
            + "] (access/set: [numberic index], remove: `pop`-cmd, insert: `push`-cmd, assign whole array by JSON)"@,
        ConfigValue::JsonLikeRecord { val_ty } =>
            "JSON-like record (access/insert/set: [alphabetic index], rem: `rem`-cmd + [alphabetic index], assign whole record by JSON) { \"index\": \""@
            + spec_usage(*val_ty) + "\" }"@,
    }
}

fn push_str(out: &mut String, s: &str)
    ensures
        final(out)@ == old(out)@ + s@,
{
    out.append(s);
}

fn join_into(out: &mut String, list: &Vec<String>, sep: &str)
    ensures
        final(out)@ == old(out)@ + join_texts(list@.map_values(|v: String| v@), sep@),
{
    let ghost texts = list@.map_values(|v: String| v@);
    let mut i: usize = 0;
    while i < list.len()
        invariant
            i <= list.len(),
            texts == list@.map_values(|v: String| v@),
            out@ == old(out)@ + join_texts(texts.take(i as int), sep@),
        decreases list.len() - i,
    {
        let ghost prev = out@;
        assert(texts.take(i + 1).drop_last() =~= texts.take(i as int));
        assert(texts.take(i + 1).last() == list@[i as int]@);
        if i > 0 {
            push_str(out, sep);
        } else {
            assert(texts.take(0) =~= Seq::<Seq<char>>::empty());
            assert(texts.take(1) =~= seq![list@[0]@]);
        }
        push_str(out, list[i].as_str());
        assert(out@ =~= old(out)@ + join_texts(texts.take(i + 1), sep@));
        i = i + 1;
    }
    assert(texts.take(list.len() as int) =~= texts);
}

fn parse_conf_value_usage(val: &ConfigValue) -> (r: String)
    ensures
        r@ == spec_usage(*val),
    decreases val,
{
    match val {
        ConfigValue::Struct { .. } => String::new(),
        ConfigValue::Boolean => String::from_str("boolean [true or false]"),
        ConfigValue::Int { min, max } => {
            let mut r = String::from_str("int [");
            push_i64_text(&mut r, *min);
            push_str(&mut r, "..");
            push_u64_text(&mut r, *max);
            push_str(&mut r, "]");
            r
        },
        ConfigValue::Float { min, max } => {
            let mut r = String::from_str("float [");
            push_str(&mut r, min.as_str());
            push_str(&mut r, ",");
            push_str(&mut r, max.as_str());
            push_str(&mut r, "]");
            r
        },
        ConfigValue::String { min_length, max_length } => {
            let mut r = String::from_str("string, length range [");
            push_u64_text(&mut r, *min_length as u64);
            push_str(&mut r, "..");
            push_u64_text(&mut r, *max_length as u64);
            push_str(&mut r, "]");
            r
        },
        ConfigValue::Color => String::from_str(
            "rgb color, supports html syntax (#) & css syntax (rgb())",
        ),
        ConfigValue::StringOfList { allowed_values } => {
            let mut r = String::from_str("string in [");
            join_into(&mut r, allowed_values, ", ");
            push_str(&mut r, "]");
            r
        },
        ConfigValue::Array { val_ty, .. } => {
            let mut r = String::from_str("array of [");
            push_str(&mut r, struct_name(val_ty));
            push_str(
                &mut r,
                "] (access/set: [numberic index], remove: `pop`-cmd, insert: `push`-cmd, assign whole array by JSON)",
            );
            r
        },
        ConfigValue::JsonLikeRecord { val_ty } => {
            let mut r = String::from_str(
                "JSON-like record (access/insert/set: [alphabetic index], rem: `rem`-cmd + [alphabetic index], assign whole record by JSON) { \"index\": \"",
            );
            let inner = parse_conf_value_usage(val_ty);
            push_str(&mut r, inner.as_str());
            push_str(&mut r, "\" }");
            r
        },
    }
}

/// A console entry with one argument of kind `ty`.
pub open spec fn feedback(
    name: Seq<char>,
    usage: Seq<char>,
    description: Seq<char>,
    ty: CommandArgType,
) -> AddFeedbackView {
    AddFeedbackView { name, usage, description, args: seq![(ty, None::<Seq<char>>)] }
}

/// The console entries for the value `val` at `path`, in the order in which
/// [`parse_conf_values_as_str_list`] reports them.
pub open spec fn conf_entries(
    path: Seq<char>,
    val: ConfigValue,
    description: Seq<char>,
    alias_ty: AliasType,
) -> Seq<(AddFeedbackView, ConfigValue)>
    decreases val, 0int,
{
    let usage = spec_usage(val);
    match val {
        ConfigValue::Struct { attributes, aliases, .. } => (if path.len() > 0 {
            seq![(feedback(path, usage, description, CommandArgType::JsonObjectLike), val)]
        } else {
            Seq::empty()
        }) + attr_entries(path, attributes@, aliases@),
        ConfigValue::JsonLikeRecord { val_ty } => {
            let listed = alias_ty == AliasType::NoAlias || alias_ty == AliasType::RenameOnly;
            (if listed {
                seq![(feedback(path, usage, description, CommandArgType::JsonObjectLike), val)]
            } else {
                Seq::empty()
            }) + conf_entries(
                if listed {
                    path + "$KEY$"@
                } else {
                    path
                },
                *val_ty,
                Seq::empty(),
                AliasType::NoAlias,
            )
        },
        ConfigValue::Array { val_ty, .. } => {
            let listed = alias_ty == AliasType::NoAlias || alias_ty == AliasType::RenameOnly;
            (if listed {
                seq![(feedback(path, usage, description, CommandArgType::JsonArrayLike), val)]
            } else {
                Seq::empty()
            }) + conf_entries(
                if listed {
                    path + "$INDEX$"@
                } else {
                    path
                },
                *val_ty,
                Seq::empty(),
                AliasType::NoAlias,
            )
        },
        ConfigValue::Float { .. } => seq![
            (feedback(path, usage, description, CommandArgType::Float), val),
        ],
        ConfigValue::Int { .. } => seq![
            (feedback(path, usage, description, CommandArgType::Number), val),
        ],
        _ => seq![(feedback(path, usage, description, CommandArgType::Text), val)],
    }
}

/// A value that is not a struct, record or array is reported as one entry
/// at its own path, with its description and one argument: a float for a
/// float value, a number for an integer value, and text for every other
/// value (booleans, strings, lists of allowed strings and colours).
pub proof fn lemma_leaf_entry(path: Seq<char>, val: ConfigValue, description: Seq<char>, alias_ty: AliasType)
    requires
        !(val is Struct),
        !(val is JsonLikeRecord),
        !(val is Array),
    ensures
        ({
            let e = conf_entries(path, val, description, alias_ty);
            &&& e.len() == 1
            &&& e[0].0.name == path
            &&& e[0].0.description == description
            &&& e[0].1 == val
            &&& e[0].0.args.len() == 1
            &&& e[0].0.args[0].1 is None
            &&& val is Float ==> e[0].0.args[0].0 == CommandArgType::Float
            &&& val is Int ==> e[0].0.args[0].0 == CommandArgType::Number
            &&& (val is Boolean || val is String || val is StringOfList || val is Color)
                ==> e[0].0.args[0].0 == CommandArgType::Text
        }),
{
}

/// A struct is listed with an entry of its own (taking a JSON object) only
/// at a non-empty path; a record or array is listed with an entry of its own
/// (taking a JSON object or array) unless it is reached through an alias
/// with modifiers.
pub proof fn lemma_container_entry(path: Seq<char>, val: ConfigValue, description: Seq<char>, alias_ty: AliasType)
    ensures
        ({
            let e = conf_entries(path, val, description, alias_ty);
            &&& val is Struct && path.len() > 0 ==> e.len() >= 1 && e[0].0.name == path
                && e[0].0.args == seq![(CommandArgType::JsonObjectLike, None::<Seq<char>>)]
            &&& val is JsonLikeRecord && alias_ty != AliasType::HasModifiers ==> e.len() >= 1
                && e[0].0.name == path && e[0].0.args == seq![(CommandArgType::JsonObjectLike, None::<Seq<char>>)]
            &&& val is Array && alias_ty != AliasType::HasModifiers ==> e.len() >= 1 && e[0].0.name
                == path && e[0].0.args == seq![(CommandArgType::JsonArrayLike, None::<Seq<char>>)]
        }),
{
}

/// The path under which the attributes of a struct at `path` are listed.
pub open spec fn attr_prefix(path: Seq<char>) -> Seq<char> {
    if path.len() > 0 {
        path.push('.')
    } else {
        path
    }
}

/// The entries for the attributes `attrs` of a struct at `path`: each
/// attribute under its own name, then under each alias that names it.
pub open spec fn attr_entries(
    path: Seq<char>,
    attrs: Seq<ConfigValueAttr>,
    aliases: Seq<(String, String)>,
) -> Seq<(AddFeedbackView, ConfigValue)>
    decreases attrs, 0int,
{
    if attrs.len() == 0 {
        Seq::empty()
    } else {
        let a = attrs[0];
        conf_entries(attr_prefix(path) + a.name@, a.val, a.description@, AliasType::NoAlias)
            + alias_entries(attr_prefix(path), a, aliases) + attr_entries(
            path,
            attrs.drop_first(),
            aliases,
        )
    }
}

/// Whether the alias target `to` names the attribute `name`: it starts with
/// the name and, without its modifiers, is the name (both compared in lower
/// case).
pub open spec fn alias_names(to: Seq<char>, name: Seq<char>) -> bool {
    alias_names_lowered(lowercase(to), lowercase(name), lowercase(modifier_scan(to).0))
}

/// Whether an alias target names an attribute, from the lower case forms
/// of the target, of the attribute's name and of the target without its
/// modifiers.
pub open spec fn alias_names_lowered(to_lower: Seq<char>, name_lower: Seq<char>, rest_lower: Seq<char>) -> bool {
    seq_starts_with(to_lower, name_lower) && rest_lower == name_lower
}

/// Whether an alias target names an attribute, given the lower case forms
/// (see [`alias_names_lowered`]).
pub fn alias_matches(to_lower: &str, name_lower: &str, rest_lower: &str) -> (r: bool)
    ensures
        r == alias_names_lowered(to_lower@, name_lower@, rest_lower@),
{
    if !starts_with(to_lower, name_lower) {
        return false;
    }
    let a = chars_of(rest_lower);
    let b = chars_of(name_lower);
    if a.len() != b.len() {
        return false;
    }
    let mut i: usize = 0;
    while i < a.len()
        invariant
            a@ == rest_lower@,
            b@ == name_lower@,
            a@.len() == b@.len(),
            i <= a@.len(),
            forall|j: int| 0 <= j < i ==> a@[j] == b@[j],
        decreases a.len() - i,
    {
        if a[i] != b[i] {
            return false;
        }
        i = i + 1;
    }
    assert(a@ =~= b@);
    true
}

/// The entries for the aliases of attribute `a` (listed under `prefix`).
pub open spec fn alias_entries(
    prefix: Seq<char>,
    a: ConfigValueAttr,
    aliases: Seq<(String, String)>,
) -> Seq<(AddFeedbackView, ConfigValue)>
    decreases a, aliases.len(),
{
    if aliases.len() == 0 {
        Seq::empty()
    } else {
        let from = aliases[0].0@;
        let to = aliases[0].1@;
        (if alias_names(to, a.name@) {
            conf_entries(
                prefix + from,
                a.val,
                a.description@,
                if modifier_scan(to).1.len() == 0 {
                    AliasType::RenameOnly
                } else {
                    AliasType::HasModifiers
                },
            )
        } else {
            Seq::empty()
        }) + alias_entries(prefix, a, aliases.drop_first())
    }
}

/// The views of a list of reported entries.
pub open spec fn entries_view<'a>(v: Seq<(AddFeedback, &'a ConfigValue)>) -> Seq<
    (AddFeedbackView, ConfigValue),
> {
    v.map_values(|e: (AddFeedback, &'a ConfigValue)| (e.0@, *e.1))
}

fn make_feedback(name: String, usage: String, description: String, ty: CommandArgType) -> (r:
    AddFeedback)
    ensures
        r@ == feedback(name@, usage@, description@, ty),
{
    let mut args: Vec<CommandArg> = Vec::new();
    args.push(CommandArg { ty, user_ty: None });
    let r = AddFeedback { name, usage, description, args };
    assert(r@.args =~= seq![(ty, None::<Seq<char>>)]);
    r
}

fn push_entry<'a>(out: &mut Vec<(AddFeedback, &'a ConfigValue)>, f: AddFeedback, v: &'a ConfigValue)
    ensures
        entries_view(final(out)@) == entries_view(old(out)@).push((f@, *v)),
{
    out.push((f, v));
    assert(entries_view(out@) =~= entries_view(old(out)@).push((f@, *v)));
}

fn aliases_into<'a>(
    prefix: &String,
    attribute: &'a ConfigValueAttr,
    aliases: &Vec<(String, String)>,
    out: &mut Vec<(AddFeedback, &'a ConfigValue)>,
)
    ensures
        entries_view(final(out)@) == entries_view(old(out)@) + alias_entries(
            prefix@,
            *attribute,
            aliases@,
        ),
    decreases attribute, 0int,
{
    let ghost total = entries_view(old(out)@) + alias_entries(prefix@, *attribute, aliases@);
    assert(aliases@.skip(0) =~= aliases@);
    let mut j: usize = 0;
    while j < aliases.len()
        invariant
            j <= aliases.len(),
            total == entries_view(out@) + alias_entries(
                prefix@,
                *attribute,
                aliases@.skip(j as int),
            ),
        decreases aliases.len() - j,
    {
        let pair = &aliases[j];
        let ghost rest_aliases = aliases@.skip(j as int);
        assert(rest_aliases[0] == aliases@[j as int]);
        assert(rest_aliases.drop_first() =~= aliases@.skip(j + 1));
        let to_lower = to_lowercase(pair.1.as_str());
        let name_lower = to_lowercase(attribute.name.as_str());
        if starts_with(to_lower.as_str(), name_lower.as_str()) {
            let (rest, modifiers) = find_modifiers(pair.1.as_str());
            let rest_lower = to_lowercase(rest.as_str());
            if alias_matches(to_lower.as_str(), name_lower.as_str(), rest_lower.as_str()) {
                let mut path = prefix.clone();
                push_str(&mut path, pair.0.as_str());
                assert(modifiers@.len() == modifier_scan(pair.1@).1.len());
                list_into(
                    path,
                    &attribute.val,
                    attribute.description.clone(),
                    if modifiers.len() == 0 {
                        AliasType::RenameOnly
                    } else {
                        AliasType::HasModifiers
                    },
                    out,
                );
            }
        }
        assert(total =~= entries_view(out@) + alias_entries(
            prefix@,
            *attribute,
            aliases@.skip(j + 1),
        ));
        j = j + 1;
    }
    assert(aliases@.skip(j as int) =~= Seq::<(String, String)>::empty());
    assert(entries_view(out@) =~= total);
}

fn attributes_into<'a>(
    cur_path: &String,
    val: &'a ConfigValue,
    out: &mut Vec<(AddFeedback, &'a ConfigValue)>,
)
    requires
        val is Struct,
    ensures
        entries_view(final(out)@) == entries_view(old(out)@) + attr_entries(
            cur_path@,
            val->Struct_attributes@,
            val->Struct_aliases@,
        ),
    decreases val, 1int,
{
    let ConfigValue::Struct { attributes, aliases, .. } = val else {
        return ;
    };
    let ghost total = entries_view(old(out)@) + attr_entries(
        cur_path@,
        attributes@,
        aliases@,
    );
    assert(attributes@.skip(0) =~= attributes@);
    let mut i: usize = 0;
    while i < attributes.len()
        invariant
            i <= attributes.len(),
            *val == (ConfigValue::Struct { attributes: *attributes, aliases: *aliases, name: val->Struct_name }),
            total == entries_view(out@) + attr_entries(
                cur_path@,
                attributes@.skip(i as int),
                aliases@,
            ),
        decreases attributes.len() - i,
    {
        let attribute = &attributes[i];
        let ghost a = attributes@[i as int];
        let ghost rest_attrs = attributes@.skip(i as int);
        assert(rest_attrs[0] == a);
        assert(rest_attrs.drop_first() =~= attributes@.skip(i + 1));
        let mut new_path = cur_path.clone();
        if !cur_path.as_str().is_empty() {
            push_char(&mut new_path, '.');
        }
        let path_without_name = new_path.clone();
        assert(path_without_name@ == attr_prefix(cur_path@));
        push_str(&mut new_path, attribute.name.as_str());
        proof {
            assert(decreases_to!(*val => val->Struct_attributes));
            assert(decreases_to!(val->Struct_attributes => val->Struct_attributes@));
            assert(decreases_to!(attributes@ => attributes@[i as int]));
        }
        list_into(new_path, &attribute.val, attribute.description.clone(), AliasType::NoAlias, out);
        aliases_into(&path_without_name, attribute, aliases, out);
        assert(total =~= entries_view(out@) + attr_entries(
            cur_path@,
            attributes@.skip(i + 1),
            aliases@,
        ));
        i = i + 1;
    }
    assert(attributes@.skip(i as int) =~= Seq::<ConfigValueAttr>::empty());
    assert(entries_view(out@) =~= total);
}

fn list_into<'a>(
    cur_path: String,
    val: &'a ConfigValue,
    description: String,
    alias_ty: AliasType,
    out: &mut Vec<(AddFeedback, &'a ConfigValue)>,
)
    ensures
        entries_view(final(out)@) == entries_view(old(out)@) + conf_entries(
            cur_path@,
            *val,
            description@,
            alias_ty,
        ),
    decreases val, 2int,
{
    let ghost total = entries_view(old(out)@) + conf_entries(
        cur_path@,
        *val,
        description@,
        alias_ty,
    );
    let usage = parse_conf_value_usage(val);
    match val {
        ConfigValue::Struct { .. } => {
            let ghost head: Seq<(AddFeedbackView, ConfigValue)> = if cur_path@.len() > 0 {
                seq![(feedback(cur_path@, usage@, description@, CommandArgType::JsonObjectLike), *val)]
            } else {
                Seq::empty()
            };
            if !cur_path.as_str().is_empty() {
                let f = make_feedback(
                    cur_path.clone(),
                    usage,
                    description,
                    CommandArgType::JsonObjectLike,
                );
                push_entry(out, f, val);
            }
            assert(entries_view(out@) =~= entries_view(old(out)@) + head);
            attributes_into(&cur_path, val, out);
            assert(entries_view(out@) =~= total);
        },
        ConfigValue::JsonLikeRecord { val_ty } => {
            let mut new_path = cur_path.clone();
            let listed = match alias_ty {
                AliasType::NoAlias | AliasType::RenameOnly => true,
                AliasType::HasModifiers => false,
            };
            if listed {
                let f = make_feedback(cur_path, usage, description, CommandArgType::JsonObjectLike);
                push_entry(out, f, val);
                push_str(&mut new_path, "$KEY$");
            }
            list_into(new_path, val_ty, String::new(), AliasType::NoAlias, out);
            assert(entries_view(out@) =~= total);
        },
        ConfigValue::Array { val_ty, .. } => {
            let mut new_path = cur_path.clone();
            let listed = match alias_ty {
                AliasType::NoAlias | AliasType::RenameOnly => true,
                AliasType::HasModifiers => false,
            };
            if listed {
                let f = make_feedback(cur_path, usage, description, CommandArgType::JsonArrayLike);
                push_entry(out, f, val);
                push_str(&mut new_path, "$INDEX$");
            }
            list_into(new_path, val_ty, String::new(), AliasType::NoAlias, out);
            assert(entries_view(out@) =~= total);
        },
        _ => {
            let ty = match val {
                ConfigValue::Float { .. } => CommandArgType::Float,
                ConfigValue::Int { .. } => CommandArgType::Number,
                _ => CommandArgType::Text,
            };
            let f = make_feedback(cur_path, usage, description, ty);
            push_entry(out, f, val);
            assert(entries_view(out@) =~= total);
        },
    }
}

/// Lists the console entries of a configuration value, in order: a struct
/// (at a non-empty path) then each attribute, and each alias that names an
/// attribute; a record or array (unless reached through an alias with
/// modifiers) then its element type under `$KEY$`/`$INDEX$`; any other value
/// as one entry.
pub fn parse_conf_values_as_str_list<'a>(
    cur_path: String,
    val: &'a ConfigValue,
    description: String,
    alias_ty: AliasType,
) -> (r: Vec<(AddFeedback, &'a ConfigValue)>)
    ensures
        entries_view(r@) == conf_entries(cur_path@, *val, description@, alias_ty),
{
    let mut out: Vec<(AddFeedback, &'a ConfigValue)> = Vec::new();
    list_into(cur_path, val, description, alias_ty, &mut out);
    assert(entries_view(out@) =~= conf_entries(cur_path@, *val, description@, alias_ty));
    out
}

} // verus!

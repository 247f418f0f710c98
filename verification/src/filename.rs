//! The names of the exported files.

use crate::digits::{
    decimal, decimal_string, is_digit, law_decimal_injective, lemma_decimal_digits,
};
use crate::records::{BeaconAccessory, BeaconAccessoryModel};
use crate::text::{chars_of, text_of};
use vstd::hash_set::StringHashSet;
use vstd::prelude::*;
use vstd::set_lib::{lemma_int_range, lemma_len_subset, lemma_map_size, set_int_range};

verus! {

/// The characters that may stand in a file name as they are: ASCII letters and
/// digits, the hyphen and the underscore.
pub open spec fn is_safe_char(c: char) -> bool {
    ||| 'a' <= c <= 'z'
    ||| 'A' <= c <= 'Z'
    ||| '0' <= c <= '9'
    ||| c == '-'
    ||| c == '_'
}

/// What stands for `c` in a file name.
pub open spec fn safe_char(c: char) -> char {
    if is_safe_char(c) {
        c
    } else {
        '_'
    }
}

/// What stands for `value` in a file name.
pub open spec fn safe_component(value: Seq<char>) -> Seq<char> {
    if value.len() == 0 {
        "Unknown"@
    } else {
        Seq::new(value.len(), |i: int| safe_char(value[i]))
    }
}

/// `value` as a part of a file name: every character that is not safe becomes
/// an underscore, and `Unknown` stands for no characters at all.
pub fn safe_filename_component(value: &str) -> (out: String)
    ensures
        out@ == safe_component(value@),
{
    if value.is_empty() {
        return "Unknown".to_owned();
    }
    let mut safe = String::new();
    for c in it: value.chars()
        invariant
            it.seq() == value@,
            safe@ == Seq::new(it.index() as nat, |i: int| safe_char(value@[i])),
    {
        let kept = ('a' <= c && c <= 'z') || ('A' <= c && c <= 'Z') || ('0' <= c && c <= '9') || c
            == '-' || c == '_';
        safe.push(if kept { c } else { '_' });
        proof {
            assert(safe@ =~= Seq::new((it.index() + 1) as nat, |i: int| safe_char(value@[i])));
        }
    }
    safe
}

/// The names that are taken.
pub struct UsedNames {
    names: StringHashSet,
}

impl View for UsedNames {
    type V = Set<Seq<char>>;

    closed spec fn view(&self) -> Set<Seq<char>> {
        self.names@
    }
}

impl UsedNames {
    #[verifier::type_invariant]
    closed spec fn inv(self) -> bool {
        self.names@.finite()
    }

    /// No name is taken.
    pub fn new() -> (out: Self)
        ensures
            out@ == Set::<Seq<char>>::empty(),
    {
        UsedNames { names: StringHashSet::new() }
    }

    /// Whether `name` is taken.
    pub fn contains(&self, name: &str) -> (taken: bool)
        ensures
            taken == self@.contains(name@),
    {
        self.names.contains(name)
    }

    /// Takes `name`; tells whether it was free.
    pub fn insert(&mut self, name: String) -> (free: bool)
        ensures
            final(self)@ == old(self)@.insert(name@),
            free == !old(self)@.contains(name@),
    {
        proof {
            use_type_invariant(&*self);
        }
        let mut names = StringHashSet::new();
        std::mem::swap(&mut names, &mut self.names);
        let free = names.insert(name);
        self.names = names;
        free
    }

    /// How many names are taken.
    pub fn len(&self) -> (n: usize)
        ensures
            n == self@.len(),
            self@.finite(),
    {
        proof {
            use_type_invariant(self);
        }
        self.names.len()
    }
}

/// The first `n` characters of `s`, or all where there are fewer.
pub open spec fn at_most(s: Seq<char>, n: int) -> Seq<char> {
    if s.len() <= n {
        s
    } else {
        s.take(n)
    }
}

/// How the file name of an accessory starts: its name, two underscores and the
/// first twelve characters of its identifier, all made safe.
pub open spec fn name_base(acc: BeaconAccessoryModel) -> Seq<char> {
    safe_component(acc.naming.name) + "__"@ + at_most(
        safe_component(acc.master_record.stable_identifier),
        12,
    )
}

/// The `k`-th file name that is tried: the first has no number, and the others
/// are numbered from two.
pub open spec fn candidate(base: Seq<char>, k: nat) -> Seq<char> {
    if k <= 1 {
        base + ".plist"@
    } else {
        base + "__"@ + decimal(k) + ".plist"@
    }
}

/// Whether the `k`-th name is free and every earlier one is taken.
pub open spec fn is_first_free(base: Seq<char>, used: Set<Seq<char>>, k: nat) -> bool {
    &&& 1 <= k
    &&& !used.contains(candidate(base, k))
    &&& forall|j: nat| 1 <= j < k ==> used.contains(#[trigger] candidate(base, j))
}

/// Whether one of the names is free whose numbers a file may carry.
pub open spec fn name_available(base: Seq<char>, used: Set<Seq<char>>) -> bool {
    exists|k: nat| 1 <= k < i32::MAX && !used.contains(#[trigger] candidate(base, k))
}

/// The number of the first name that is free.
pub open spec fn first_free(base: Seq<char>, used: Set<Seq<char>>) -> nat {
    choose|k: nat| is_first_free(base, used, k)
}

/// The file name that an accessory gets where the names `used` are taken.
pub open spec fn filename_of(acc: BeaconAccessoryModel, used: Set<Seq<char>>) -> Seq<char> {
    candidate(name_base(acc), first_free(name_base(acc), used))
}

/// There is at most one first free name.
proof fn lemma_first_free_unique(base: Seq<char>, used: Set<Seq<char>>, k: nat)
    requires
        is_first_free(base, used, k),
    ensures
        first_free(base, used) == k,
{
    let f = first_free(base, used);
    assert(is_first_free(base, used, f));
    if f < k {
        assert(used.contains(candidate(base, f)));
    }
    if k < f {
        assert(used.contains(candidate(base, k)));
    }
}

/// Where some name is free, one is the first.
proof fn lemma_first_free_exists(base: Seq<char>, used: Set<Seq<char>>, j: nat, k: nat)
    requires
        1 <= j <= k,
        !used.contains(candidate(base, k)),
        forall|i: nat| 1 <= i < j ==> used.contains(#[trigger] candidate(base, i)),
    ensures
        exists|f: nat| f <= k && #[trigger] is_first_free(base, used, f),
    decreases k - j,
{
    if !used.contains(candidate(base, j)) {
        assert(is_first_free(base, used, j));
    } else {
        lemma_first_free_exists(base, used, j + 1, k);
    }
}

/// The name with the number `counter`.
fn numbered_name(base: &String, counter: i32) -> (out: String)
    requires
        counter >= 2,
    ensures
        out@ == candidate(base@, counter as nat),
{
    let mut name = base.clone();
    name.append("__");
    let number = decimal_string(counter as u64);
    name.append(number.as_str());
    name.append(".plist");
    name
}

/// A file name for `acc` that is not among `used_names`, to which it is added.
///
/// One of the names numbered below `i32::MAX` has to be free.
pub fn accessory_filename(acc: &BeaconAccessory, used_names: &mut UsedNames) -> (filename: String)
    requires
        name_available(name_base(acc@), old(used_names)@),
    ensures
        filename@ == filename_of(acc@, old(used_names)@),
        !old(used_names)@.contains(filename@),
        final(used_names)@ == old(used_names)@.insert(filename@),
{
    let safe_name = safe_filename_component(acc.naming.name.as_str());
    let stable_id = safe_filename_component(acc.master_record.stable_identifier.as_str());
    let id_chars = chars_of(stable_id.as_str());
    let shown: usize = if id_chars.len() < 12 {
        id_chars.len()
    } else {
        12
    };
    let suffix = text_of(&id_chars, 0, shown);
    proof {
        assert(suffix@ =~= at_most(stable_id@, 12));
    }
    let mut base = safe_name;
    base.append("__");
    base.append(suffix.as_str());
    let ghost used = used_names@;
    let ghost last = choose|k: nat|
        1 <= k < i32::MAX && !used.contains(#[trigger] candidate(base@, k));
    let mut filename = base.clone();
    filename.append(".plist");
    let mut counter: i32 = 2;
    while used_names.contains(filename.as_str())
        invariant
            used == used_names@,
            1 <= last < i32::MAX,
            !used.contains(candidate(base@, last)),
            2 <= counter <= last + 1,
            filename@ == candidate(base@, (counter - 1) as nat),
            forall|j: nat| 1 <= j < counter - 1 ==> used.contains(#[trigger] candidate(base@, j)),
        decreases last + 1 - counter,
    {
        filename = numbered_name(&base, counter);
        counter = counter + 1;
    }
    proof {
        assert(is_first_free(base@, used, (counter - 1) as nat));
        lemma_first_free_unique(base@, used, (counter - 1) as nat);
    }
    used_names.insert(filename.clone());
    filename
}

/// Names with different numbers are different.
proof fn lemma_candidates_differ(base: Seq<char>, j: nat, k: nat)
    requires
        1 <= j,
        1 <= k,
        candidate(base, j) == candidate(base, k),
    ensures
        j == k,
{
    reveal_strlit("__");
    reveal_strlit(".plist");
    let from = base.len() + 2;
    if j > 1 && k > 1 {
        let a = candidate(base, j);
        let b = candidate(base, k);
        assert(a.subrange(from as int, a.len() - 6) =~= decimal(j));
        assert(b.subrange(from as int, b.len() - 6) =~= decimal(k));
        law_decimal_injective(j, k);
    } else if k > 1 {
        assert(candidate(base, k).len() == base.len() + 2 + decimal(k).len() + 6);
        assert(candidate(base, j).len() == base.len() + 6);
    } else if j > 1 {
        assert(candidate(base, j).len() == base.len() + 2 + decimal(j).len() + 6);
        assert(candidate(base, k).len() == base.len() + 6);
    }
}

/// Where fewer names are taken than there are numbers for, a name is free.
pub proof fn law_name_available(base: Seq<char>, used: Set<Seq<char>>)
    requires
        used.finite(),
        used.len() < i32::MAX - 1,
    ensures
        name_available(base, used),
{
    if !name_available(base, used) {
        let numbers = set_int_range(1, i32::MAX as int);
        let f = |k: int| candidate(base, k as nat);
        lemma_int_range(1, i32::MAX as int);
        assert forall|j: int, k: int|
            numbers.contains(j) && numbers.contains(k) && #[trigger] f(j) == #[trigger] f(
                k,
            ) implies j == k by {
            lemma_candidates_differ(base, j as nat, k as nat);
        }
        let names = numbers.map(f);
        lemma_map_size(numbers, names, f);
        assert forall|name: Seq<char>| names.contains(name) implies used.contains(name) by {
            let k = choose|k: int| numbers.contains(k) && f(k) == name;
            assert(1 <= k < i32::MAX);
            assert(candidate(base, k as nat) == name);
        }
        lemma_len_subset(names, used);
    }
}

/// Whether every character of `s` is safe.
pub open spec fn all_safe(s: Seq<char>) -> bool {
    forall|i: int| 0 <= i < s.len() ==> is_safe_char(#[trigger] s[i])
}

/// A component of a file name is not empty and holds safe characters only; a
/// text like that already stays as it is, so that making it safe again changes
/// nothing.
pub proof fn law_safe_component(value: Seq<char>)
    ensures
        safe_component(value).len() > 0,
        all_safe(safe_component(value)),
        value.len() > 0 && all_safe(value) ==> safe_component(value) == value,
        safe_component(safe_component(value)) == safe_component(value),
{
    reveal_strlit("Unknown");
    let once = safe_component(value);
    assert(safe_component(once) =~= once);
    if value.len() > 0 && all_safe(value) {
        assert(once =~= value);
    }
}

/// A component of a file name has as many characters as the text it stands for,
/// where that is not empty.
pub proof fn law_safe_component_length(value: Seq<char>)
    requires
        value.len() > 0,
    ensures
        safe_component(value).len() == value.len(),
{
}

/// Whether `name` is a stem of safe characters, followed by `.plist`.
pub open spec fn is_safe_filename(name: Seq<char>) -> bool {
    exists|stem: Seq<char>|
        stem.len() > 0 && #[trigger] all_safe(stem) && name == stem + ".plist"@
}

/// Every file name tried for an accessory is a stem of safe characters followed
/// by `.plist`.
pub proof fn law_candidate_is_safe(acc: BeaconAccessoryModel, k: nat)
    ensures
        is_safe_filename(candidate(name_base(acc), k)),
{
    reveal_strlit("__");
    let base = name_base(acc);
    law_safe_component(acc.naming.name);
    law_safe_component(acc.master_record.stable_identifier);
    assert(all_safe(base));
    if k <= 1 {
        assert(candidate(base, k) == base + ".plist"@);
    } else {
        lemma_decimal_digits(k);
        let digits = decimal(k);
        assert forall|i: int| 0 <= i < digits.len() implies is_safe_char(#[trigger] digits[i]) by {
            assert(is_digit(digits[i]));
        }
        assert(all_safe(base + "__"@ + digits));
        assert(candidate(base, k) == (base + "__"@ + digits) + ".plist"@);
    }
}

/// Whatever names are taken, the file name of an accessory is a stem of safe
/// characters followed by `.plist`.
pub proof fn law_filename_is_safe(acc: BeaconAccessoryModel, used: Set<Seq<char>>)
    ensures
        is_safe_filename(filename_of(acc, used)),
{
    law_candidate_is_safe(acc, first_free(name_base(acc), used));
}

/// A safe file name names a file in the directory that it is put in: it has no
/// path separator, colon or null character, and does not start with a dot.
pub proof fn law_safe_filename_stays_in_directory(name: Seq<char>)
    requires
        is_safe_filename(name),
    ensures
        name.len() > 0,
        name.first() != '.',
        !name.contains('/'),
        !name.contains('\\'),
        !name.contains(':'),
        !name.contains('\0'),
{
    reveal_strlit(".plist");
    let stem = choose|stem: Seq<char>|
        stem.len() > 0 && #[trigger] all_safe(stem) && name == stem + ".plist"@;
    assert(is_safe_char(stem[0]));
    assert forall|i: int| 0 <= i < name.len() implies name[i] != '/' && name[i] != '\\'
        && name[i] != ':' && name[i] != '\0' by {
        if i < stem.len() {
            assert(is_safe_char(stem[i]));
        }
    }
}

/// The accessory gets the unnumbered name where that is free.
pub proof fn law_first_choice(acc: BeaconAccessoryModel, used: Set<Seq<char>>)
    requires
        !used.contains(name_base(acc) + ".plist"@),
    ensures
        filename_of(acc, used) == name_base(acc) + ".plist"@,
{
    assert(is_first_free(name_base(acc), used, 1));
    lemma_first_free_unique(name_base(acc), used, 1);
}

/// Where a name is available, the file name of an accessory is one that is not
/// taken.
pub proof fn law_filename_is_free(acc: BeaconAccessoryModel, used: Set<Seq<char>>)
    requires
        name_available(name_base(acc), used),
    ensures
        !used.contains(filename_of(acc, used)),
{
    let base = name_base(acc);
    let k = choose|k: nat|
        1 <= k < i32::MAX && !used.contains(#[trigger] candidate(base, k));
    lemma_first_free_exists(base, used, 1, k);
    let f = choose|f: nat| f <= k && #[trigger] is_first_free(base, used, f);
    lemma_first_free_unique(base, used, f);
}

/// A component of a file name has a character for each character of its text:
/// an ASCII letter or digit, a hyphen and an underscore stay, and an underscore
/// stands for any other. It is `Unknown` for an empty text.
pub proof fn law_safe_component_characters(value: Seq<char>)
    ensures
        value.len() == 0 ==> safe_component(value) == "Unknown"@,
        value.len() > 0 ==> safe_component(value).len() == value.len(),
        forall|i: int|
            0 <= i < value.len() ==> #[trigger] safe_component(value)[i] == (if 'a' <= value[i] <= 'z'
                || 'A' <= value[i] <= 'Z' || '0' <= value[i] <= '9' || value[i] == '-' || value[i]
                == '_' {
                value[i]
            } else {
                '_'
            }),
{
}

/// The file name of an accessory starts with its name, made safe character by
/// character, two underscores, and the first twelve characters of its stable
/// identifier, or all where there are fewer, made safe in the same way. It ends
/// in `.plist`. `Unknown` stands for a name or an identifier that is empty.
pub proof fn law_filename_start(acc: BeaconAccessory, used: Set<Seq<char>>)
    ensures
        ({
            let name = acc.naming.name@;
            let id = acc.master_record.stable_identifier@;
            let file = filename_of(acc@, used);
            let n: int = if name.len() == 0 {
                7
            } else {
                name.len() as int
            };
            let m: int = if id.len() == 0 {
                7
            } else if id.len() < 12 {
                id.len() as int
            } else {
                12
            };
            &&& file.len() >= n + 2 + m + 6
            &&& name.len() == 0 ==> file.take(7) == "Unknown"@
            &&& forall|i: int|
                0 <= i < name.len() ==> file[i] == (if 'a' <= #[trigger] name[i] <= 'z' || 'A'
                    <= name[i] <= 'Z' || '0' <= name[i] <= '9' || name[i] == '-' || name[i]
                    == '_' {
                    name[i]
                } else {
                    '_'
                })
            &&& file[n] == '_' && file[n + 1] == '_'
            &&& id.len() == 0 ==> file.subrange(n + 2, n + 9) == "Unknown"@
            &&& forall|i: int|
                0 <= i < id.len() && i < 12 ==> file[n + 2 + i] == (if 'a' <= #[trigger] id[i]
                    <= 'z' || 'A' <= id[i] <= 'Z' || '0' <= id[i] <= '9' || id[i] == '-' || id[i]
                    == '_' {
                    id[i]
                } else {
                    '_'
                })
            &&& file.skip(file.len() - 6) == ".plist"@
        }),
{
    reveal_strlit("__");
    reveal_strlit("Unknown");
    reveal_strlit(".plist");
    let name = acc.naming.name@;
    let id = acc.master_record.stable_identifier@;
    let safe_name = safe_component(name);
    let safe_id = at_most(safe_component(id), 12);
    let n = safe_name.len() as int;
    let base = name_base(acc@);
    let file = filename_of(acc@, used);
    assert(base.len() == n + 2 + safe_id.len());
    assert(file.take(base.len() as int) =~= base);
    assert(file.skip(file.len() - 6) =~= ".plist"@);
    assert forall|i: int| 0 <= i < base.len() implies file[i] == #[trigger] base[i] by {
        assert(file.take(base.len() as int)[i] == base[i]);
    }
    assert(base[n] == '_' && base[n + 1] == '_');
    assert forall|i: int| 0 <= i < safe_name.len() implies file[i] == #[trigger] safe_name[i] by {
        assert(file[i] == base[i]);
    }
    assert forall|i: int| 0 <= i < safe_id.len() implies file[n + 2 + i] == #[trigger] safe_id[i] by {
        assert(file[n + 2 + i] == base[n + 2 + i]);
    }
    if name.len() == 0 {
        assert(file.take(7) =~= "Unknown"@);
    }
    if id.len() == 0 {
        assert(file.subrange(n + 2, n + 9) =~= "Unknown"@);
    }
    assert forall|i: int| 0 <= i < name.len() implies file[i] == safe_char(#[trigger] name[i]) by {
        assert(file[i] == safe_name[i]);
    }
    assert forall|i: int| 0 <= i < id.len() && i < 12 implies file[n + 2 + i] == safe_char(
        #[trigger] id[i],
    ) by {
        assert(file[n + 2 + i] == safe_id[i]);
    }
}

/// What follows the start of an accessory's file name: nothing but `.plist`
/// where that name is free, else two underscores and the smallest number from
/// two on with which the name is free.
pub proof fn law_filename_number(acc: BeaconAccessory, used: Set<Seq<char>>)
    requires
        used.finite(),
        used.len() < i32::MAX - 1,
    ensures
        ({
            let name = acc.naming.name@;
            let id = acc.master_record.stable_identifier@;
            let file = filename_of(acc@, used);
            let n: int = if name.len() == 0 {
                7
            } else {
                name.len() as int
            };
            let m: int = if id.len() == 0 {
                7
            } else if id.len() < 12 {
                id.len() as int
            } else {
                12
            };
            let start = file.take(n + 2 + m);
            &&& !used.contains(file)
            &&& if !used.contains(start + ".plist"@) {
                file == start + ".plist"@
            } else {
                exists|k: nat|
                    {
                        &&& 2 <= k < i32::MAX
                        &&& file == start + "__"@ + #[trigger] decimal(k) + ".plist"@
                        &&& forall|j: nat|
                            2 <= j < k ==> used.contains(
                                start + "__"@ + #[trigger] decimal(j) + ".plist"@,
                            )
                    }
            }
        }),
{
    reveal_strlit("__");
    reveal_strlit("Unknown");
    let name = acc.naming.name@;
    let id = acc.master_record.stable_identifier@;
    let base = name_base(acc@);
    let file = filename_of(acc@, used);
    law_name_available(base, used);
    law_filename_is_free(acc@, used);
    let last = choose|k: nat|
        1 <= k < i32::MAX && !used.contains(#[trigger] candidate(base, k));
    lemma_first_free_exists(base, used, 1, last);
    let k = choose|f: nat| f <= last && #[trigger] is_first_free(base, used, f);
    lemma_first_free_unique(base, used, k);
    assert(file == candidate(base, k));
    let n = safe_component(name).len() as int;
    let m = at_most(safe_component(id), 12).len() as int;
    assert(base.len() == n + 2 + m);
    assert(file.take(n + 2 + m) =~= base);
    assert(candidate(base, 1) == base + ".plist"@);
    if used.contains(base + ".plist"@) {
        assert(k >= 2);
        assert(file == base + "__"@ + decimal(k) + ".plist"@);
        assert forall|j: nat| 2 <= j < k implies used.contains(
            base + "__"@ + #[trigger] decimal(j) + ".plist"@,
        ) by {
            assert(used.contains(candidate(base, j)));
        }
    } else {
        if k > 1 {
            assert(used.contains(candidate(base, 1)));
        }
    }
}

} // verus!

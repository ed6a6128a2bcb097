//! Choosing the Bash build for a host from its os-release fields (Linux) or
//! its kernel release (macOS).
use crate::constants::{
    darwin_bash_variants, darwin_variant_table, linux_bash_variants, linux_variant_table,
};
use crate::text::{chars_of, is_prefix, join_path, path_join, starts_with, text_eq};
use crate::types::{
    BashSelection, DarwinBashVariant, DarwinVariantView, HostOs, LauncherError, LinuxBashVariant,
    LinuxVariantView, OsReleaseInfo, OsReleaseView,
};
use vstd::prelude::*;

verus! {

/// The separator-joined text of `parts`.
pub open spec fn joined(parts: Seq<Seq<char>>, sep: Seq<char>) -> Seq<char>
    decreases parts.len(),
{
    if parts.len() == 0 {
        seq![]
    } else if parts.len() == 1 {
        parts[0]
    } else {
        joined(parts.drop_last(), sep) + sep + parts.last()
    }
}

/// A table entry that has a variant name.
pub trait VariantName {
    spec fn spec_name(&self) -> Seq<char>;

    fn name(&self) -> (r: &str)
        ensures
            r@ == self.spec_name(),
    ;
}

impl VariantName for LinuxBashVariant {
    open spec fn spec_name(&self) -> Seq<char> {
        self.name@
    }

    fn name(&self) -> (r: &str) {
        self.name
    }
}

impl VariantName for DarwinBashVariant {
    open spec fn spec_name(&self) -> Seq<char> {
        self.name@
    }

    fn name(&self) -> (r: &str) {
        self.name
    }
}

/// The names of the entries of a table.
pub open spec fn names_of<V: VariantName>(variants: Seq<V>) -> Seq<Seq<char>> {
    variants.map_values(|v: V| v.spec_name())
}

/// The text that lists the supported variants.
pub open spec fn supported_text(names: Seq<Seq<char>>) -> Seq<char> {
    "Supported variants: "@ + joined(names, ", "@)
}

/// Lists the names of `variants` for an error message.
pub fn supported_detail<V: VariantName>(variants: &[V]) -> (r: String)
    ensures
        r@ == supported_text(names_of(variants@)),
{
    let ghost names = names_of(variants@);
    let mut r = String::from_str("Supported variants: ");
    let ghost head = r@;
    let mut i: usize = 0;
    while i < variants.len()
        invariant
            names == names_of(variants@),
            head == "Supported variants: "@,
            i <= variants@.len(),
            r@ == head + joined(names.take(i as int), ", "@),
        decreases variants@.len() - i,
    {
        if i > 0 {
            r.append(", ");
        }
        r.append(variants[i].name());
        proof {
            let t = names.take(i as int + 1);
            assert(t.drop_last() =~= names.take(i as int));
            assert(t.last() == names[i as int]);
            if i == 0 {
                assert(joined(names.take(0), ", "@) =~= seq![]);
            }
        }
        i = i + 1;
    }
    assert(names.take(variants@.len() as int) =~= names);
    r
}

/// Where the build of a variant lies under the Bash root: `root/name/bash`.
pub open spec fn variant_path_of(bash_root: Seq<char>, name: Seq<char>) -> Seq<char> {
    path_join(path_join(bash_root, name), "bash"@)
}

/// The path of the Bash build of the variant `name` under `bash_root`.
pub fn variant_path(bash_root: &str, name: &str) -> (r: String)
    ensures
        r@ == variant_path_of(bash_root@, name@),
{
    let dir = join_path(bash_root, name);
    join_path(dir.as_str(), "bash")
}

/// `r` selects the variant `name`, at its path under `bash_root`.
pub open spec fn selects(
    r: Result<BashSelection, LauncherError>,
    bash_root: Seq<char>,
    name: Seq<char>,
) -> bool {
    match r {
        Ok(sel) => sel.variant@ == name && sel.path@ == variant_path_of(bash_root, name),
        Err(_) => false,
    }
}

/// `r` reports that no variant is available, listing `names`.
pub open spec fn reports_no_variant(r: Result<BashSelection, LauncherError>, names: Seq<Seq<char>>) -> bool {
    match r {
        Err(LauncherError::NoVariantAvailable(detail)) => detail@ == supported_text(names),
        _ => false,
    }
}

/// The least index below `n` at which `p` holds, if there is one.
pub open spec fn first_index(n: int, p: spec_fn(int) -> bool) -> Option<int> {
    if exists|i: int| 0 <= i < n && #[trigger] p(i) && forall|j: int| 0 <= j < i ==> !(#[trigger] p(j)) {
        Some(choose|i: int| 0 <= i < n && #[trigger] p(i) && forall|j: int| 0 <= j < i ==> !(#[trigger] p(j)))
    } else {
        None
    }
}

/// Where `p` holds below `n`, `first_index` finds the least such index.
pub proof fn lemma_first_index(n: int, p: spec_fn(int) -> bool, i: int)
    requires
        0 <= i < n,
        p(i),
    ensures
        first_index(n, p) matches Some(f) && 0 <= f <= i && p(f) && forall|j: int|
            0 <= j < f ==> !(#[trigger] p(j)),
    decreases i,
{
    if exists|j: int| 0 <= j < i && #[trigger] p(j) {
        let j = choose|j: int| 0 <= j < i && #[trigger] p(j);
        lemma_first_index(n, p, j);
    } else {
        assert(0 <= i < n && p(i) && forall|j: int| 0 <= j < i ==> !(#[trigger] p(j)));
    }
}

/// An index that is the least one at which `p` holds is what `first_index` gives.
proof fn lemma_first_index_is(n: int, p: spec_fn(int) -> bool, i: int)
    requires
        0 <= i < n,
        p(i),
        forall|j: int| 0 <= j < i ==> !(#[trigger] p(j)),
    ensures
        first_index(n, p) == Some(i),
{
    lemma_first_index(n, p, i);
    let f = first_index(n, p)->0;
    if f < i {
        assert(!p(f));
    }
}

/// `p` holds nowhere below `n`.
proof fn lemma_first_index_none(n: int, p: spec_fn(int) -> bool)
    requires
        forall|j: int| 0 <= j < n ==> !(#[trigger] p(j)),
    ensures
        first_index(n, p) is None,
{
}

/// One of the variant's ids is the host's id or one of the ids it is like.
pub open spec fn id_matches(v: LinuxVariantView, info: OsReleaseView) -> bool {
    exists|j: int|
        0 <= j < v.ids.len() && (v.ids[j] == info.id || info.id_like.contains(#[trigger] v.ids[j]))
}

/// The host's version begins with one of the variant's version prefixes.
pub open spec fn version_matches(v: LinuxVariantView, version: Seq<char>) -> bool {
    exists|j: int| 0 <= j < v.versions.len() && is_prefix(#[trigger] v.versions[j], version)
}

/// The entry of `table` that the Linux policy picks: the first entry that
/// matches the host by id and by version; else the first that matches by id;
/// else the first entry; `None` only for an empty table.
pub open spec fn linux_choice(table: Seq<LinuxVariantView>, info: OsReleaseView) -> Option<int> {
    let full = |i: int| id_matches(table[i], info) && version_matches(table[i], info.version_id);
    let family = |i: int| id_matches(table[i], info);
    match first_index(table.len() as int, full) {
        Some(i) => Some(i),
        None => match first_index(table.len() as int, family) {
            Some(i) => Some(i),
            None => if table.len() > 0 {
                Some(0)
            } else {
                None
            },
        },
    }
}

/// The views of a table of Linux variants.
pub open spec fn linux_views(table: Seq<LinuxBashVariant>) -> Seq<LinuxVariantView> {
    table.map_values(|v: LinuxBashVariant| v@)
}

/// Whether the variant serves the host's id or one of the ids it is like.
fn variant_matches_id(variant: &LinuxBashVariant, info: &OsReleaseInfo) -> (r: bool)
    ensures
        r == id_matches(variant@, info@),
{
    let mut j: usize = 0;
    while j < variant.ids.len()
        invariant
            j <= variant.ids@.len(),
            forall|k: int| 0 <= k < j ==> !(variant@.ids[k] == info@.id || info@.id_like.contains(#[trigger] variant@.ids[k])),
        decreases variant.ids@.len() - j,
    {
        let id: &str = variant.ids[j];
        if text_eq(info.id.as_str(), id) {
            assert(variant@.ids[j as int] == info@.id);
            return true;
        }
        let mut k: usize = 0;
        while k < info.id_like.len()
            invariant
                j < variant.ids@.len(),
                id@ == variant@.ids[j as int],
                k <= info.id_like@.len(),
                forall|m: int| 0 <= m < k ==> info@.id_like[m] != id@,
            decreases info.id_like@.len() - k,
        {
            if text_eq(info.id_like[k].as_str(), id) {
                assert(info@.id_like[k as int] == id@);
                return true;
            }
            k = k + 1;
        }
        assert(!info@.id_like.contains(id@));
        j = j + 1;
    }
    false
}

/// Whether the host's version begins with one of the variant's version prefixes.
fn variant_matches_version(variant: &LinuxBashVariant, version: &str) -> (r: bool)
    ensures
        r == version_matches(variant@, version@),
{
    let mut j: usize = 0;
    while j < variant.versions.len()
        invariant
            j <= variant.versions@.len(),
            forall|k: int| 0 <= k < j ==> !is_prefix(#[trigger] variant@.versions[k], version@),
        decreases variant.versions@.len() - j,
    {
        if starts_with(version, variant.versions[j]) {
            assert(is_prefix(variant@.versions[j as int], version@));
            return true;
        }
        j = j + 1;
    }
    false
}

/// The index of the entry of `table` that the Linux policy picks for `info`.
pub fn select_linux_variant(table: &[LinuxBashVariant], info: &OsReleaseInfo) -> (r: Option<usize>)
    ensures
        r matches Some(i) ==> linux_choice(linux_views(table@), info@) == Some(i as int),
        r is None ==> linux_choice(linux_views(table@), info@) is None,
{
    let ghost t = linux_views(table@);
    let ghost full = |i: int| id_matches(t[i], info@) && version_matches(t[i], info@.version_id);
    let ghost family = |i: int| id_matches(t[i], info@);
    let mut first_family: Option<usize> = None;
    let mut i: usize = 0;
    while i < table.len()
        invariant
            t == linux_views(table@),
            full == (|i: int| id_matches(t[i], info@) && version_matches(t[i], info@.version_id)),
            family == (|i: int| id_matches(t[i], info@)),
            i <= table@.len(),
            forall|k: int| 0 <= k < i ==> !(#[trigger] full(k)),
            first_family matches Some(f) ==> f < i && family(f as int) && forall|k: int|
                0 <= k < f ==> !(#[trigger] family(k)),
            first_family is None ==> forall|k: int| 0 <= k < i ==> !(#[trigger] family(k)),
        decreases table@.len() - i,
    {
        let variant = &table[i];
        assert(t[i as int] == variant@);
        if variant_matches_id(variant, info) {
            if variant_matches_version(variant, info.version_id.as_str()) {
                proof {
                    lemma_first_index_is(t.len() as int, full, i as int);
                }
                return Some(i);
            }
            if first_family.is_none() {
                first_family = Some(i);
            }
        }
        i = i + 1;
    }
    proof {
        lemma_first_index_none(t.len() as int, full);
    }
    match first_family {
        Some(f) => {
            proof {
                lemma_first_index_is(t.len() as int, family, f as int);
            }
            Some(f)
        },
        None => {
            proof {
                lemma_first_index_none(t.len() as int, family);
            }
            if table.len() > 0 {
                Some(0)
            } else {
                None
            }
        },
    }
}

/// The value of a decimal digit.
pub open spec fn digit_value(c: char) -> int {
    (c as u32) as int - ('0' as u32) as int
}

/// `c` is one of `0` to `9`.
pub open spec fn is_digit(c: char) -> bool {
    '0' <= c && c <= '9'
}

/// The number that a run of decimal digits writes.
pub open spec fn decimal_value(d: Seq<char>) -> int
    decreases d.len(),
{
    if d.len() == 0 {
        0
    } else {
        decimal_value(d.drop_last()) * 10 + digit_value(d.last())
    }
}

/// Every character of `d` is a decimal digit.
pub open spec fn all_digits(d: Seq<char>) -> bool {
    forall|k: int| 0 <= k < d.len() ==> is_digit(#[trigger] d[k])
}

/// The number of sign characters that lead `s`: a `+` or a `-`, or none.
pub open spec fn sign_len(s: Seq<char>) -> int {
    if s.len() > 0 && (s[0] == '+' || s[0] == '-') {
        1
    } else {
        0
    }
}

/// `str::parse::<i32>`: an optional `+` or `-`, then one or more decimal
/// digits, whose value must lie in the range of `i32`.
pub open spec fn parse_i32(s: Seq<char>) -> Option<int> {
    let digits = s.skip(sign_len(s));
    let v = if s.len() > 0 && s[0] == '-' {
        -decimal_value(digits)
    } else {
        decimal_value(digits)
    };
    if digits.len() > 0 && all_digits(digits) && i32::MIN <= v <= i32::MAX {
        Some(v)
    } else {
        None
    }
}

/// The text of a Darwin release before its first `.`, or all of it.
pub open spec fn major_text(release: Seq<char>) -> Seq<char> {
    match first_index(release.len() as int, |i: int| release[i] == '.') {
        Some(d) => release.take(d),
        None => release,
    }
}

/// The major version of a Darwin release; 0 where it is not a number.
pub open spec fn darwin_major(release: Seq<char>) -> int {
    match parse_i32(major_text(release)) {
        Some(v) => v,
        None => 0,
    }
}

/// A bound above every `i32` magnitude, at which the digit sum stops growing.
const DIGITS_CAP: u64 = 2147483649;

/// `parse_i32` of the first `hi` characters of `cs`.
fn parse_i32_prefix(cs: &Vec<char>, hi: usize) -> (r: Option<i32>)
    requires
        hi <= cs@.len(),
    ensures
        r matches Some(v) ==> parse_i32(cs@.take(hi as int)) == Some(v as int),
        r is None ==> parse_i32(cs@.take(hi as int)) is None,
{
    let ghost s = cs@.take(hi as int);
    if hi == 0 {
        return None;
    }
    let negative = cs[0] == '-';
    let start: usize = if cs[0] == '+' || cs[0] == '-' {
        1
    } else {
        0
    };
    let ghost digits = s.skip(start as int);
    if start == hi {
        assert(digits.len() == 0);
        return None;
    }
    let mut acc: u64 = 0;
    let mut k: usize = start;
    while k < hi
        invariant
            s == cs@.take(hi as int),
            digits == s.skip(start as int),
            0 < hi,
            s[0] == cs@[0],
            negative == (s[0] == '-'),
            start == sign_len(s),
            start <= k <= hi <= cs@.len(),
            forall|m: int| 0 <= m < k - start ==> is_digit(#[trigger] digits[m]),
            decimal_value(digits.take(k - start)) >= 0,
            acc <= DIGITS_CAP,
            acc < DIGITS_CAP ==> acc == decimal_value(digits.take(k - start)),
            acc == DIGITS_CAP ==> decimal_value(digits.take(k - start)) >= DIGITS_CAP,
        decreases hi - k,
    {
        let c = cs[k];
        if !('0' <= c && c <= '9') {
            assert(digits[k - start] == c);
            assert(!is_digit(digits[k - start]));
            return None;
        }
        let d = (c as u32 - '0' as u32) as u64;
        let ghost old_v = decimal_value(digits.take(k - start));
        assert(digits.take(k + 1 - start).drop_last() =~= digits.take(k - start));
        assert(decimal_value(digits.take(k + 1 - start)) == old_v * 10 + d);
        if acc == DIGITS_CAP {
            assert(old_v * 10 + d >= DIGITS_CAP) by (nonlinear_arith)
                requires
                    old_v >= DIGITS_CAP,
                    d >= 0,
            ;
        } else {
            let next = acc * 10 + d;
            acc = if next >= DIGITS_CAP {
                DIGITS_CAP
            } else {
                next
            };
        }
        k = k + 1;
    }
    assert(digits.take(hi - start) =~= digits);
    if negative {
        if acc <= 2147483648 {
            Some((0 - (acc as i64)) as i32)
        } else {
            None
        }
    } else {
        if acc <= 2147483647 {
            Some(acc as i32)
        } else {
            None
        }
    }
}

/// The major version of a Darwin release string.
pub fn parse_darwin_major(release: &str) -> (r: i32)
    ensures
        r as int == darwin_major(release@),
{
    let cs = chars_of(release);
    let ghost is_dot = |i: int| release@[i] == '.';
    let mut d: usize = 0;
    while d < cs.len() && cs[d] != '.'
        invariant
            cs@ == release@,
            d <= cs@.len(),
            is_dot == (|i: int| release@[i] == '.'),
            forall|k: int| 0 <= k < d ==> !(#[trigger] is_dot(k)),
        decreases cs@.len() - d,
    {
        d = d + 1;
    }
    proof {
        if d < cs.len() {
            lemma_first_index_is(release@.len() as int, is_dot, d as int);
        } else {
            lemma_first_index_none(release@.len() as int, is_dot);
            assert(cs@.take(d as int) =~= release@);
        }
    }
    match parse_i32_prefix(&cs, d) {
        Some(v) => v,
        None => 0,
    }
}

/// The entry of `table` that the macOS policy picks for a Darwin major
/// version: the first whose minimum is at most `major`; else the first
/// entry; `None` only for an empty table.
pub open spec fn darwin_choice(table: Seq<DarwinVariantView>, major: int) -> Option<int> {
    match first_index(table.len() as int, |i: int| table[i].min_darwin <= major) {
        Some(i) => Some(i),
        None => if table.len() > 0 {
            Some(0)
        } else {
            None
        },
    }
}

/// The views of a table of macOS variants.
pub open spec fn darwin_views(table: Seq<DarwinBashVariant>) -> Seq<DarwinVariantView> {
    table.map_values(|v: DarwinBashVariant| v@)
}

/// The index of the entry of `table` that the macOS policy picks for `major`.
pub fn select_darwin_variant(table: &[DarwinBashVariant], major: i32) -> (r: Option<usize>)
    ensures
        r matches Some(i) ==> darwin_choice(darwin_views(table@), major as int) == Some(i as int),
        r is None ==> darwin_choice(darwin_views(table@), major as int) is None,
{
    let ghost t = darwin_views(table@);
    let ghost fits = |i: int| t[i].min_darwin <= major as int;
    let mut i: usize = 0;
    while i < table.len()
        invariant
            t == darwin_views(table@),
            fits == (|i: int| t[i].min_darwin <= major as int),
            i <= table@.len(),
            forall|k: int| 0 <= k < i ==> !(#[trigger] fits(k)),
        decreases table@.len() - i,
    {
        assert(t[i as int] == table@[i as int]@);
        if major >= table[i].min_darwin {
            proof {
                lemma_first_index_is(t.len() as int, fits, i as int);
            }
            return Some(i);
        }
        i = i + 1;
    }
    proof {
        lemma_first_index_none(t.len() as int, fits);
    }
    if table.len() > 0 {
        Some(0)
    } else {
        None
    }
}

/// The selection for a variant name.
fn selection(bash_root: &str, name: &str) -> (r: BashSelection)
    ensures
        r.variant@ == name@,
        r.path@ == variant_path_of(bash_root@, name@),
{
    BashSelection { path: variant_path(bash_root, name), variant: String::from_str(name) }
}

/// The Linux variant that the shipped table gives a host.
pub open spec fn linux_selected_name(info: OsReleaseView) -> Option<Seq<char>> {
    match linux_choice(linux_variant_table(), info) {
        Some(i) => Some(linux_variant_table()[i].name),
        None => None,
    }
}

/// Picks the Linux build for the host described by `info`.
pub fn select_linux_bash(bash_root: &str, info: &OsReleaseInfo) -> (r: Result<
    BashSelection,
    LauncherError,
>)
    ensures
        linux_selected_name(info@) matches Some(name) ==> selects(r, bash_root@, name),
        linux_selected_name(info@) is None ==> reports_no_variant(
            r,
            linux_variant_table().map_values(|v: LinuxVariantView| v.name),
        ),
{
    let table = linux_bash_variants();
    assert(linux_views(table@) == linux_variant_table());
    match select_linux_variant(table.as_slice(), info) {
        Some(i) => {
            assert(table@[i as int]@ == linux_variant_table()[i as int]);
            Ok(selection(bash_root, table[i].name))
        },
        None => {
            let detail = supported_detail(table.as_slice());
            assert(names_of(table@) =~= linux_variant_table().map_values(
                |v: LinuxVariantView| v.name,
            ));
            Err(LauncherError::NoVariantAvailable(detail))
        },
    }
}

/// The macOS variant that the shipped table gives a Darwin release.
pub open spec fn darwin_selected_name(release: Seq<char>) -> Option<Seq<char>> {
    match darwin_choice(darwin_variant_table(), darwin_major(release)) {
        Some(i) => Some(darwin_variant_table()[i].name),
        None => None,
    }
}

/// Picks the macOS build for the Darwin release `darwin_release`.
pub fn select_darwin_bash(bash_root: &str, darwin_release: &str) -> (r: Result<
    BashSelection,
    LauncherError,
>)
    ensures
        darwin_selected_name(darwin_release@) matches Some(name) ==> selects(r, bash_root@, name),
        darwin_selected_name(darwin_release@) is None ==> reports_no_variant(
            r,
            darwin_variant_table().map_values(|v: DarwinVariantView| v.name),
        ),
{
    let darwin_major = parse_darwin_major(darwin_release);
    let table = darwin_bash_variants();
    assert(darwin_views(table@) == darwin_variant_table());
    match select_darwin_variant(table.as_slice(), darwin_major) {
        Some(i) => {
            assert(table@[i as int]@ == darwin_variant_table()[i as int]);
            Ok(selection(bash_root, table[i].name))
        },
        None => {
            let detail = supported_detail(table.as_slice());
            assert(names_of(table@) =~= darwin_variant_table().map_values(
                |v: DarwinVariantView| v.name,
            ));
            Err(LauncherError::NoVariantAvailable(detail))
        },
    }
}

/// Picks the Bash build for a host under `target_root/bash`: on Linux from
/// its os-release fields, on macOS from its Darwin release. The input that the
/// host's OS calls for must be given.
pub fn resolve_bash_path(
    target_root: &str,
    os: HostOs,
    darwin_release: Option<&str>,
    os_info: Option<&OsReleaseInfo>,
) -> (r: Result<BashSelection, LauncherError>)
    ensures
        os == HostOs::Linux && os_info is None ==> r == Err::<BashSelection, LauncherError>(
            LauncherError::MissingHostInfo(HostOs::Linux),
        ),
        os == HostOs::MacOs && darwin_release is None ==> r == Err::<BashSelection, LauncherError>(
            LauncherError::MissingHostInfo(HostOs::MacOs),
        ),
        os == HostOs::Linux && os_info is Some ==> selects(
            r,
            path_join(target_root@, "bash"@),
            linux_selected_name(os_info->0@)->0,
        ),
        os == HostOs::MacOs && darwin_release is Some ==> selects(
            r,
            path_join(target_root@, "bash"@),
            darwin_selected_name(darwin_release->0@)->0,
        ),
{
    proof {
        lemma_shipped_tables_choose();
    }
    let bash_root = join_path(target_root, "bash");
    match os {
        HostOs::Linux => match os_info {
            Some(info) => select_linux_bash(bash_root.as_str(), info),
            None => Err(LauncherError::MissingHostInfo(HostOs::Linux)),
        },
        HostOs::MacOs => match darwin_release {
            Some(release) => select_darwin_bash(bash_root.as_str(), release),
            None => Err(LauncherError::MissingHostInfo(HostOs::MacOs)),
        },
    }
}

/// Where some entry matches the host both by id (or an id it is like) and by
/// version prefix, the Linux policy picks such an entry, and the first one.
pub proof fn lemma_linux_prefers_version_match(
    table: Seq<LinuxVariantView>,
    info: OsReleaseView,
    i: int,
)
    requires
        0 <= i < table.len(),
        id_matches(table[i], info),
        version_matches(table[i], info.version_id),
    ensures
        linux_choice(table, info) is Some,
        ({
            let f = linux_choice(table, info)->0;
            &&& 0 <= f <= i
            &&& id_matches(table[f], info)
            &&& version_matches(table[f], info.version_id)
            &&& forall|j: int|
                0 <= j < f ==> !(#[trigger] id_matches(table[j], info) && version_matches(
                    table[j],
                    info.version_id,
                ))
        }),
{
    let full = |k: int| id_matches(table[k], info) && version_matches(table[k], info.version_id);
    lemma_first_index(table.len() as int, full, i);
    let f = first_index(table.len() as int, full)->0;
    assert forall|j: int| 0 <= j < f implies !(#[trigger] id_matches(table[j], info)
        && version_matches(table[j], info.version_id)) by {
        assert(!full(j));
    }
}

/// Where entries match the host by id (or an id it is like) but none of them
/// by version prefix, the Linux policy picks the first entry that matches by id.
pub proof fn lemma_linux_falls_back_to_family(
    table: Seq<LinuxVariantView>,
    info: OsReleaseView,
    i: int,
)
    requires
        0 <= i < table.len(),
        id_matches(table[i], info),
        forall|j: int|
            0 <= j < table.len() && #[trigger] id_matches(table[j], info) ==> !version_matches(
                table[j],
                info.version_id,
            ),
    ensures
        linux_choice(table, info) is Some,
        ({
            let f = linux_choice(table, info)->0;
            &&& 0 <= f <= i
            &&& id_matches(table[f], info)
            &&& forall|j: int| 0 <= j < f ==> !#[trigger] id_matches(table[j], info)
        }),
{
    let full = |k: int| id_matches(table[k], info) && version_matches(table[k], info.version_id);
    let family = |k: int| id_matches(table[k], info);
    assert forall|j: int| 0 <= j < table.len() implies !#[trigger] full(j) by {
        if id_matches(table[j], info) {
            assert(!version_matches(table[j], info.version_id));
        }
    }
    lemma_first_index_none(table.len() as int, full);
    lemma_first_index(table.len() as int, family, i);
    let f = first_index(table.len() as int, family)->0;
    assert forall|j: int| 0 <= j < f implies !#[trigger] id_matches(table[j], info) by {
        assert(!family(j));
    }
}

/// Where no entry matches the host by id or by an id it is like, the Linux
/// policy picks the first entry of the table.
pub proof fn lemma_linux_defaults_to_first(table: Seq<LinuxVariantView>, info: OsReleaseView)
    requires
        table.len() > 0,
        forall|j: int| 0 <= j < table.len() ==> !#[trigger] id_matches(table[j], info),
    ensures
        linux_choice(table, info) == Some(0int),
{
    let full = |k: int| id_matches(table[k], info) && version_matches(table[k], info.version_id);
    let family = |k: int| id_matches(table[k], info);
    assert forall|j: int| 0 <= j < table.len() implies !#[trigger] full(j) by {
        assert(!id_matches(table[j], info));
    }
    assert forall|j: int| 0 <= j < table.len() implies !#[trigger] family(j) by {
        assert(!id_matches(table[j], info));
    }
    lemma_first_index_none(table.len() as int, full);
    lemma_first_index_none(table.len() as int, family);
}

/// For a Darwin release of major version N, the macOS policy picks the first
/// entry whose minimum major version is at most N; where there is none, the
/// first entry of the table.
pub proof fn lemma_darwin_policy(table: Seq<DarwinVariantView>, release: Seq<char>)
    requires
        table.len() > 0,
    ensures
        ({
            let n = darwin_major(release);
            &&& (exists|i: int| 0 <= i < table.len() && #[trigger] table[i].min_darwin <= n) ==> {
                let f = darwin_choice(table, n)->0;
                &&& darwin_choice(table, n) is Some
                &&& 0 <= f < table.len()
                &&& table[f].min_darwin <= n
                &&& forall|j: int| 0 <= j < f ==> #[trigger] table[j].min_darwin > n
            }
            &&& (forall|i: int| 0 <= i < table.len() ==> #[trigger] table[i].min_darwin > n)
                ==> darwin_choice(table, n) == Some(0int)
        }),
{
    let n = darwin_major(release);
    let fits = |i: int| table[i].min_darwin <= n;
    if exists|i: int| 0 <= i < table.len() && #[trigger] table[i].min_darwin <= n {
        let i = choose|i: int| 0 <= i < table.len() && #[trigger] table[i].min_darwin <= n;
        lemma_first_index(table.len() as int, fits, i);
        let f = first_index(table.len() as int, fits)->0;
        assert forall|j: int| 0 <= j < f implies #[trigger] table[j].min_darwin > n by {
            assert(!fits(j));
        }
    } else {
        assert forall|j: int| 0 <= j < table.len() implies !#[trigger] fits(j) by {
            assert(!(table[j].min_darwin <= n));
        }
        lemma_first_index_none(table.len() as int, fits);
    }
}

/// The shipped tables are not empty, so a variant is always chosen.
pub proof fn lemma_shipped_tables_choose()
    ensures
        forall|info: OsReleaseView| #[trigger] linux_selected_name(info) is Some,
        forall|release: Seq<char>| #[trigger] darwin_selected_name(release) is Some,
{
}

} // verus!

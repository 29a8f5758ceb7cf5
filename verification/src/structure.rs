//! How content is laid out: articles and assets live in directories named
//! by year and month, and what a file is follows from its path alone.
use vstd::prelude::*;
use vstd::string::StringExecFns;
use crate::fs::Directory;
use crate::fs::FSNode;
use crate::fs::File;
use crate::fs::NodeModel;
use crate::path::components;
use crate::path::ends_with;
use crate::path::join;
use crate::path::joined;
use crate::path::path_components;
use crate::path::path_join;
use crate::path::path_joined;
use crate::path::path_strip_prefix;
use crate::path::strip_prefix;
use crate::path::text_ends_with;
use crate::text::chars_of;
use crate::text::decimal;
use crate::text::same_text;
use crate::text::string_of;
use crate::text::texts;
use crate::text::to_decimal;

pub mod template;

verus! {

/// Whether `c` is a decimal digit.
pub open spec fn is_digit(c: char) -> bool {
    '0' <= c <= '9'
}

/// The number that the digits of `s` write in decimal.
pub open spec fn decimal_value(s: Seq<char>) -> nat
    decreases s.len(),
{
    if s.len() == 0 {
        0
    } else {
        decimal_value(s.drop_last()) * 10 + (s.last() as u32 - '0' as u32) as nat
    }
}

/// `s` is one digit or more and nothing else.
pub open spec fn is_number(s: Seq<char>) -> bool {
    s.len() > 0 && forall|i: int| 0 <= i < s.len() ==> is_digit(#[trigger] s[i])
}

/// `s` without a `+` at its head.
pub open spec fn unsigned(s: Seq<char>) -> Seq<char> {
    if s.len() > 0 && s[0] == '+' {
        s.drop_first()
    } else {
        s
    }
}

/// The number that `s` writes: digits, with or without a `+` before
/// them, whose value fits in 32 bits.
pub open spec fn number_of(s: Seq<char>) -> Option<u32> {
    if is_number(unsigned(s)) && decimal_value(unsigned(s)) <= u32::MAX {
        Some(decimal_value(unsigned(s)) as u32)
    } else {
        None
    }
}

/// A number does not get smaller when digits are written behind it.
pub proof fn lemma_decimal_value_grows(s: Seq<char>, n: int)
    requires
        0 <= n <= s.len(),
        forall|i: int| 0 <= i < s.len() ==> is_digit(#[trigger] s[i]),
    ensures
        decimal_value(s.subrange(0, n)) <= decimal_value(s),
    decreases s.len() - n,
{
    if n < s.len() {
        let front = s.drop_last();
        assert(s.subrange(0, s.len() as int) =~= s);
        if n < front.len() {
            assert forall|i: int| 0 <= i < front.len() implies is_digit(#[trigger] front[i]) by {
                assert(front[i] == s[i]);
            }
            lemma_decimal_value_grows(front, n);
            assert(front.subrange(0, n) =~= s.subrange(0, n));
        } else {
            assert(s.subrange(0, n) =~= front);
        }
        assert(is_digit(s[s.len() - 1]));
    } else {
        assert(s.subrange(0, n) =~= s);
    }
}

/// The number that the characters `chars[from..]` write, if they are
/// digits and the number fits in 32 bits.
fn parse_digits(chars: &Vec<char>, from: usize) -> (n: Option<u32>)
    requires
        from <= chars@.len(),
    ensures
        n == (if is_number(chars@.subrange(from as int, chars@.len() as int)) && decimal_value(
            chars@.subrange(from as int, chars@.len() as int),
        ) <= u32::MAX {
            Some(decimal_value(chars@.subrange(from as int, chars@.len() as int)) as u32)
        } else {
            None::<u32>
        }),
{
    let ghost digits = chars@.subrange(from as int, chars@.len() as int);
    if from == chars.len() {
        return None;
    }
    let mut value: u64 = 0;
    let mut i: usize = from;
    proof {
        assert(digits.subrange(0, 0) =~= Seq::<char>::empty());
    }
    while i < chars.len()
        invariant
            from <= i <= chars.len(),
            digits == chars@.subrange(from as int, chars@.len() as int),
            forall|k: int| 0 <= k < i - from ==> is_digit(#[trigger] digits[k]),
            value == decimal_value(digits.subrange(0, i - from)),
            value <= u32::MAX,
        decreases chars.len() - i,
    {
        let c = chars[i];
        assert(c == digits[i - from]);
        if !(c >= '0' && c <= '9') {
            return None;
        }
        proof {
            assert(digits.subrange(0, i - from + 1).drop_last() =~= digits.subrange(0, i - from));
        }
        value = value * 10 + (c as u32 - '0' as u32) as u64;
        i += 1;
        if value > 0xffff_ffff {
            proof {
                assert forall|k: int| 0 <= k < digits.len() && !is_digit(
                    #[trigger] digits[k],
                ) implies !is_number(digits) by {}
                if is_number(digits) {
                    lemma_decimal_value_grows(digits, i - from);
                }
            }
            return None;
        }
    }
    proof {
        assert(digits.subrange(0, digits.len() as int) =~= digits);
    }
    Some(value as u32)
}

/// The number that `s` writes, if it writes one.
pub fn parse_number(s: &str) -> (n: Option<u32>)
    ensures
        n == number_of(s@),
{
    let chars = chars_of(s);
    let from: usize = if chars.len() > 0 && chars[0] == '+' {
        1
    } else {
        0
    };
    proof {
        assert(chars@.subrange(from as int, chars@.len() as int) =~= unsigned(s@));
    }
    parse_digits(&chars, from)
}

/// The directory bucket of a year and a month.
#[derive(Clone, Copy, Debug, PartialEq, Eq, Structural)]
pub struct ArticleGroup {
    pub year: u32,
    pub month: u32,
}

/// What the path `path`, relative to the content root, says of where it
/// lies: the group, and the components behind the group's directory.
pub ghost struct Located {
    pub group: ArticleGroup,
    pub suffix: Seq<Seq<char>>,
}

/// Where the relative path `path` lies: its first two components must
/// write a year and a month.
pub open spec fn located(path: Seq<char>) -> Option<Located> {
    let parts = components(path);
    if parts.len() >= 2 && number_of(parts[0]) is Some && number_of(parts[1]) is Some {
        Some(
            Located {
                group: ArticleGroup {
                    year: number_of(parts[0])->0,
                    month: number_of(parts[1])->0,
                },
                suffix: parts.subrange(2, parts.len() as int),
            },
        )
    } else {
        None
    }
}

/// `s` with zeros before it until it is `width` characters long.
pub open spec fn padded(s: Seq<char>, width: nat) -> Seq<char> {
    if s.len() >= width {
        s
    } else {
        Seq::new((width - s.len()) as nat, |i: int| '0') + s
    }
}

/// The groups among the first `n` of `directories`, in order: those of
/// the paths that are a year directory and a month directory and nothing
/// more.
pub open spec fn groups_among(directories: Seq<Seq<char>>, n: nat) -> Seq<ArticleGroup>
    decreases n,
{
    if n == 0 || n > directories.len() {
        Seq::empty()
    } else {
        let before = groups_among(directories, (n - 1) as nat);
        match located(directories[n - 1]) {
            Some(place) if place.suffix.len() == 0 => before.push(place.group),
            _ => before,
        }
    }
}

/// `a` comes before `b`: an earlier year, or the same year and an earlier
/// month.
pub open spec fn earlier(a: ArticleGroup, b: ArticleGroup) -> bool {
    a.year < b.year || (a.year == b.year && a.month < b.month)
}

/// Each group of `groups` comes before the next.
pub open spec fn ascending(groups: Seq<ArticleGroup>) -> bool {
    forall|i: int, j: int| 0 <= i < j < groups.len() ==> earlier(groups[i], groups[j])
}

/// The ascending order of a set of groups is one order and no other: two
/// ascending lists that hold the same groups are the same list.
pub proof fn lemma_ascending_is_unique(a: Seq<ArticleGroup>, b: Seq<ArticleGroup>)
    requires
        ascending(a),
        ascending(b),
        forall|g: ArticleGroup| a.contains(g) <==> b.contains(g),
    ensures
        a == b,
    decreases a.len(),
{
    if a.len() == 0 {
        if b.len() > 0 {
            assert(b.contains(b[0]));
        }
        assert(a =~= b);
    } else {
        let top = a.last();
        assert(a.contains(top));
        assert(b.contains(top));
        let k = choose|k: int| 0 <= k < b.len() && b[k] == top;
        // Nothing in `b` lies behind `top`: it would be in `a`, where
        // nothing comes later than `top`.
        if k < b.len() - 1 {
            let later = b[k + 1];
            assert(earlier(b[k], b[k + 1]));
            assert(b.contains(later));
            assert(a.contains(later));
            let j = choose|j: int| 0 <= j < a.len() && a[j] == later;
            if j < a.len() - 1 {
                assert(earlier(a[j], a[a.len() - 1]));
            }
        }
        assert(k == b.len() - 1);
        let front_a = a.drop_last();
        let front_b = b.drop_last();
        assert forall|i: int, j: int| 0 <= i < j < front_a.len() implies earlier(
            front_a[i],
            front_a[j],
        ) by {
            assert(front_a[i] == a[i] && front_a[j] == a[j]);
        }
        assert forall|i: int, j: int| 0 <= i < j < front_b.len() implies earlier(
            front_b[i],
            front_b[j],
        ) by {
            assert(front_b[i] == b[i] && front_b[j] == b[j]);
        }
        assert forall|g: ArticleGroup| front_a.contains(g) <==> front_b.contains(g) by {
            if front_a.contains(g) {
                let i = choose|i: int| 0 <= i < front_a.len() && front_a[i] == g;
                assert(a[i] == g);
                assert(earlier(a[i], a[a.len() - 1]));
                assert(a.contains(g));
                assert(b.contains(g));
                let j = choose|j: int| 0 <= j < b.len() && b[j] == g;
                assert(j < b.len() - 1);
                assert(front_b[j] == g);
            }
            if front_b.contains(g) {
                let i = choose|i: int| 0 <= i < front_b.len() && front_b[i] == g;
                assert(b[i] == g);
                assert(earlier(b[i], b[b.len() - 1]));
                assert(b.contains(g));
                assert(a.contains(g));
                let j = choose|j: int| 0 <= j < a.len() && a[j] == g;
                assert(j < a.len() - 1);
                assert(front_a[j] == g);
            }
        }
        lemma_ascending_is_unique(front_a, front_b);
        assert(a =~= front_a.push(top));
        assert(b =~= front_b.push(top));
    }
}

fn pad(s: String, width: usize) -> (out: String)
    ensures
        out@ == padded(s@, width as nat),
{
    let len = s.as_str().unicode_len();
    if len >= width {
        return s;
    }
    let mut out = String::new();
    let mut k: usize = 0;
    while k < width - len
        invariant
            len < width,
            k <= width - len,
            out@ == Seq::new(k as nat, |i: int| '0'),
        decreases width - len - k,
    {
        out.push('0');
        k += 1;
        proof {
            assert(out@ =~= Seq::new(k as nat, |i: int| '0'));
        }
    }
    out.append(s.as_str());
    out
}

impl ArticleGroup {
    /// The groups among `directories`, which are paths of directories
    /// relative to the content root, in the order of the paths.
    pub fn scan(directories: &Vec<String>) -> (groups: Vec<ArticleGroup>)
        ensures
            groups@ == groups_among(texts(directories@), directories@.len()),
    {
        let mut groups: Vec<ArticleGroup> = Vec::new();
        let mut i: usize = 0;
        while i < directories.len()
            invariant
                i <= directories.len(),
                groups@ == groups_among(texts(directories@), i as nat),
            decreases directories.len() - i,
        {
            proof {
                assert(texts(directories@)[i as int] == directories@[i as int]@);
            }
            match ArticleGroup::from_path(directories[i].as_str()) {
                Some((group, suffix)) => {
                    if suffix.len() == 0 {
                        groups.push(group);
                    }
                },
                None => {},
            }
            i += 1;
        }
        groups
    }

    /// The path of a directory for the group, relative to a root: the
    /// year, then the month, as they are written without padding. A
    /// directory that was found for the group may be written otherwise,
    /// with zeros before the numbers; its path is the path it was found
    /// at, not this one.
    pub fn group_dir_path(&self) -> (path: String)
        ensures
            path@ == join(decimal(self.year as nat), decimal(self.month as nat)),
    {
        let year = to_decimal(self.year as u64);
        let month = to_decimal(self.month as u64);
        path_join(year.as_str(), month.as_str())
    }

    /// The name of the group's directory where all groups lie side by
    /// side: the year in four digits or more, then the month in two or
    /// more.
    pub fn group_dir_flat_path(&self) -> (path: String)
        ensures
            path@ == padded(decimal(self.year as nat), 4) + padded(decimal(self.month as nat), 2),
    {
        let mut path = pad(to_decimal(self.year as u64), 4);
        let month = pad(to_decimal(self.month as u64), 2);
        path.append(month.as_str());
        path
    }

    /// Where the path `value`, relative to the content root, lies: its
    /// group and the components behind the group's directory.
    pub fn from_path(value: &str) -> (found: Option<(ArticleGroup, Vec<String>)>)
        ensures
            match found {
                Some((group, suffix)) => located(value@) == Some(
                    Located { group, suffix: texts(suffix@) },
                ),
                None => located(value@) is None,
            },
    {
        let parts = path_components(value);
        if parts.len() < 2 {
            return None;
        }
        proof {
            assert(texts(parts@)[0] == parts@[0]@);
            assert(texts(parts@)[1] == parts@[1]@);
        }
        let year = match parse_number(parts[0].as_str()) {
            Some(year) => year,
            None => {
                return None;
            },
        };
        let month = match parse_number(parts[1].as_str()) {
            Some(month) => month,
            None => {
                return None;
            },
        };
        let mut suffix: Vec<String> = Vec::new();
        let mut i: usize = 2;
        while i < parts.len()
            invariant
                2 <= i <= parts.len(),
                suffix@.len() == i - 2,
                forall|k: int| 0 <= k < i - 2 ==> (#[trigger] suffix@[k])@ == parts@[k + 2]@,
            decreases parts.len() - i,
        {
            suffix.push(parts[i].clone());
            i += 1;
        }
        proof {
            assert(texts(suffix@) =~= components(value@).subrange(
                2,
                components(value@).len() as int,
            )) by {
                assert forall|k: int| 0 <= k < suffix@.len() implies texts(suffix@)[k]
                    == components(value@)[k + 2] by {
                    assert(texts(parts@)[k + 2] == parts@[k + 2]@);
                }
            }
        }
        Some((ArticleGroup { year, month }, suffix))
    }

    /// Whether this group comes before `other`.
    pub fn is_earlier(&self, other: &ArticleGroup) -> (r: bool)
        ensures
            r == earlier(*self, *other),
    {
        self.year < other.year || (self.year == other.year && self.month < other.month)
    }
}

/// `groups` in ascending order, each group once.
pub fn sorted_groups(groups: &Vec<ArticleGroup>) -> (out: Vec<ArticleGroup>)
    ensures
        ascending(out@),
        forall|g: ArticleGroup| out@.contains(g) <==> groups@.contains(g),
{
    let mut out: Vec<ArticleGroup> = Vec::new();
    let mut i: usize = 0;
    while i < groups.len()
        invariant
            i <= groups.len(),
            ascending(out@),
            forall|g: ArticleGroup|
                out@.contains(g) <==> exists|k: int| 0 <= k < i && groups@[k] == g,
        decreases groups.len() - i,
    {
        let g = groups[i];
        let mut k: usize = 0;
        while k < out.len() && out[k].is_earlier(&g)
            invariant
                k <= out.len(),
                forall|j: int| 0 <= j < k ==> earlier(#[trigger] out@[j], g),
            decreases out.len() - k,
        {
            k += 1;
        }
        let ghost before = out@;
        if k < out.len() && out[k] == g {
            proof {
                assert(before.contains(g));
                assert forall|x: ArticleGroup| before.contains(x) <==> exists|m: int|
                    0 <= m < i + 1 && groups@[m] == x by {
                    if before.contains(x) {
                        let m = choose|m: int| 0 <= m < i && groups@[m] == x;
                        assert(0 <= m < i + 1 && groups@[m] == x);
                    }
                    if exists|m: int| 0 <= m < i + 1 && groups@[m] == x {
                        let m = choose|m: int| 0 <= m < i + 1 && groups@[m] == x;
                        if m < i {
                            assert(0 <= m < i && groups@[m] == x);
                        }
                    }
                }
            }
        } else {
            out.insert(k, g);
            proof {
                let after = out@;
                assert(after == before.insert(k as int, g));
                assert forall|a: int, b: int| 0 <= a < b < after.len() implies earlier(
                    after[a],
                    after[b],
                ) by {
                    if b < k {
                        assert(after[a] == before[a] && after[b] == before[b]);
                    } else if b == k {
                        assert(after[a] == before[a]);
                    } else if a < k {
                        assert(after[a] == before[a] && after[b] == before[b - 1]);
                        assert(earlier(before[a], g));
                        assert(!earlier(before[k as int], g));
                        assert(before[k as int] != g);
                        if b - 1 > k {
                            assert(earlier(before[k as int], before[b - 1]));
                        }
                    } else if a == k {
                        assert(after[b] == before[b - 1]);
                        assert(!earlier(before[k as int], g));
                        assert(before[k as int] != g);
                        if b - 1 > k {
                            assert(earlier(before[k as int], before[b - 1]));
                        }
                    } else {
                        assert(after[a] == before[a - 1] && after[b] == before[b - 1]);
                    }
                }
                assert forall|x: ArticleGroup| after.contains(x) <==> exists|m: int|
                    0 <= m < i + 1 && groups@[m] == x by {
                    if after.contains(x) {
                        let j = choose|j: int| 0 <= j < after.len() && after[j] == x;
                        if j < k {
                            assert(before[j] == x);
                            assert(before.contains(x));
                            let m = choose|m: int| 0 <= m < i && groups@[m] == x;
                            assert(0 <= m < i + 1 && groups@[m] == x);
                        } else if j == k {
                            assert(0 <= i < i + 1 && groups@[i as int] == x);
                        } else {
                            assert(before[j - 1] == x);
                            assert(before.contains(x));
                            let m = choose|m: int| 0 <= m < i && groups@[m] == x;
                            assert(0 <= m < i + 1 && groups@[m] == x);
                        }
                    }
                    if exists|m: int| 0 <= m < i + 1 && groups@[m] == x {
                        let m = choose|m: int| 0 <= m < i + 1 && groups@[m] == x;
                        if m < i {
                            assert(before.contains(x));
                            let j = choose|j: int| 0 <= j < before.len() && before[j] == x;
                            if j < k {
                                assert(after[j] == x);
                            } else {
                                assert(after[j + 1] == x);
                            }
                        } else {
                            assert(after[k as int] == x);
                        }
                    }
                }
            }
        }
        i += 1;
    }
    proof {
        assert forall|g: ArticleGroup| out@.contains(g) <==> groups@.contains(g) by {
            if groups@.contains(g) {
                let m = choose|m: int| 0 <= m < groups@.len() && groups@[m] == g;
                assert(0 <= m < i && groups@[m] == g);
            }
        }
    }
    out
}


/// An entry of the content tree that lies in a group: the group, the
/// entry, its path relative to the content root and the components of
/// that path behind the group's directory.
#[derive(Debug)]
pub struct ArticleGroupNode {
    pub group: ArticleGroup,
    pub node: FSNode,
    pub relative_path: String,
    pub suffix_components: Vec<String>,
}

pub ghost struct GroupNodeModel {
    pub group: ArticleGroup,
    pub node: NodeModel,
    pub relative_path: Seq<char>,
    pub suffix: Seq<Seq<char>>,
}

impl View for ArticleGroupNode {
    type V = GroupNodeModel;

    open spec fn view(&self) -> GroupNodeModel {
        GroupNodeModel {
            group: self.group,
            node: self.node@,
            relative_path: self.relative_path@,
            suffix: texts(self.suffix_components@),
        }
    }
}

/// What the entry `node` found under the content root `root` is, if it
/// lies in a group.
pub open spec fn group_node(node: NodeModel, root: Seq<char>) -> Option<GroupNodeModel> {
    match strip_prefix(node.path(), root) {
        Some(relative) => match located(relative) {
            Some(place) => Some(
                GroupNodeModel {
                    group: place.group,
                    node,
                    relative_path: relative,
                    suffix: place.suffix,
                },
            ),
            None => None,
        },
        None => None,
    }
}

/// `name` is the name of a Markdown file: it ends in `.md` and is more
/// than that ending.
pub open spec fn is_markdown_name(name: Seq<char>) -> bool {
    name.len() > 3 && ends_with(name, ".md"@)
}

/// What lies behind a group's directory is an article: one component, the
/// name of a Markdown file.
pub open spec fn is_article_suffix(suffix: Seq<Seq<char>>) -> bool {
    suffix.len() == 1 && is_markdown_name(suffix[0])
}

/// What lies behind a group's directory is an asset: something inside the
/// directory `assets`.
pub open spec fn is_asset_suffix(suffix: Seq<Seq<char>>) -> bool {
    suffix.len() > 1 && suffix[0] == "assets"@
}

/// What lies behind a group's directory is the directory `assets`
/// itself.
pub open spec fn is_asset_root_suffix(suffix: Seq<Seq<char>>) -> bool {
    suffix.len() == 1 && suffix[0] == "assets"@
}

/// Nothing is both an article and an asset.
pub proof fn lemma_article_or_asset(suffix: Seq<Seq<char>>)
    ensures
        !(is_article_suffix(suffix) && is_asset_suffix(suffix)),
{
}

/// Nothing is both an article and the directory of assets.
pub proof fn lemma_article_or_asset_root(suffix: Seq<Seq<char>>)
    ensures
        !(is_article_suffix(suffix) && is_asset_root_suffix(suffix)),
{
    reveal_strlit("assets");
    reveal_strlit(".md");
    if is_asset_root_suffix(suffix) && is_article_suffix(suffix) {
        let name = suffix[0];
        let tail = name.subrange(name.len() - 3, name.len() as int);
        assert(tail[0] == name[name.len() - 3]);
        assert(name[3] == 'e');
        assert(".md"@[0] == '.');
    }
}

fn is_markdown(name: &str) -> (r: bool)
    ensures
        r == is_markdown_name(name@),
{
    name.unicode_len() > 3 && text_ends_with(name, ".md")
}

impl ArticleGroupNode {
    /// What the entry `node` found under the content root `root` is, if
    /// it lies in a group.
    pub fn from_node(node: FSNode, root: &Directory) -> (found: Option<ArticleGroupNode>)
        ensures
            match found {
                Some(found) => group_node(node@, root@) == Some(found@),
                None => group_node(node@, root@) is None,
            },
    {
        let relative_path = match path_strip_prefix(node.path(), root.path()) {
            Some(relative) => relative,
            None => {
                return None;
            },
        };
        match ArticleGroup::from_path(relative_path.as_str()) {
            Some((group, suffix_components)) => Some(
                ArticleGroupNode { group, node, relative_path, suffix_components },
            ),
            None => None,
        }
    }
}

/// The source of an article: a Markdown file directly in a group's
/// directory.
#[derive(Debug)]
pub struct ArticleFile(pub ArticleGroupNode);

impl View for ArticleFile {
    type V = GroupNodeModel;

    open spec fn view(&self) -> GroupNodeModel {
        self.0@
    }
}

impl ArticleFile {
    /// Whether this is what `from_file` makes: a file, one component
    /// behind its group, with the name of a Markdown file.
    pub open spec fn wf(&self) -> bool {
        self@.node is File && is_article_suffix(self@.suffix)
    }

    /// Whether this is what `from_file` makes.
    pub fn is_wf(&self) -> (ok: bool)
        ensures
            ok == self.wf(),
    {
        proof {
            if self.0.suffix_components@.len() > 0 {
                assert(texts(self.0.suffix_components@)[0] == self.0.suffix_components@[0]@);
            }
        }
        let is_file = match &self.0.node {
            FSNode::File(_) => true,
            _ => false,
        };
        is_file && self.0.suffix_components.len() == 1 && is_markdown(
            self.0.suffix_components[0].as_str(),
        )
    }

    /// The file `file` found under the content root `root` as the source
    /// of an article, if its path makes it one.
    pub fn from_file(file: &File, root: &Directory) -> (found: Option<ArticleFile>)
        ensures
            match found {
                Some(article) => article.wf() && group_node(NodeModel::File(file@), root@) == Some(
                    article@,
                ),
                None => !(group_node(NodeModel::File(file@), root@) matches Some(node)
                    && is_article_suffix(node.suffix)),
            },
    {
        let node = match ArticleGroupNode::from_node(FSNode::File(file.duplicate()), root) {
            Some(node) => node,
            None => {
                return None;
            },
        };
        proof {
            if node.suffix_components@.len() > 0 {
                assert(texts(node.suffix_components@)[0] == node.suffix_components@[0]@);
            }
        }
        if node.suffix_components.len() == 1 && is_markdown(node.suffix_components[0].as_str()) {
            Some(ArticleFile(node))
        } else {
            None
        }
    }

    /// The file.
    pub fn file(&self) -> (file: &File)
        requires
            self.wf(),
        ensures
            self@.node == NodeModel::File(file@),
    {
        match &self.0.node {
            FSNode::File(file) => file,
            _ => vstd::pervasive::unreached(),
        }
    }

    /// Who the article is: its group, its day and its slug, as the name
    /// of the file gives them.
    pub fn id(&self) -> (id: ArticleIdentity)
        requires
            self.wf(),
        ensures
            id@ == identity(self@.group, self@.suffix[0]),
    {
        proof {
            assert(texts(self.0.suffix_components@)[0] == self.0.suffix_components@[0]@);
        }
        ArticleIdentity::from_file_name(self.0.group, self.0.suffix_components[0].as_str())
    }
}

/// A file that belongs to the articles of a group: anything inside the
/// group's directory `assets`.
#[derive(Debug)]
pub struct AssetFile(ArticleGroupNode);

impl View for AssetFile {
    type V = GroupNodeModel;

    closed spec fn view(&self) -> GroupNodeModel {
        self.0@
    }
}

impl AssetFile {
    #[verifier::type_invariant]
    closed spec fn well_formed(self) -> bool {
        self.0@.node is File && is_asset_suffix(self.0@.suffix)
    }

    /// The path of the asset relative to the directory `assets` that
    /// holds it; every asset lies inside such a directory.
    pub fn path_in_assets(&self) -> (path: String)
        ensures
            is_asset_suffix(self@.suffix),
            path@ == joined(self@.suffix, 1, self@.suffix.len()),
    {
        proof {
            use_type_invariant(self);
        }
        path_joined(&self.0.suffix_components, 1)
    }

    /// The file `file` found under the content root `root` as an asset,
    /// if its path makes it one.
    pub fn from_file(file: &File, root: &Directory) -> (found: Option<AssetFile>)
        ensures
            match found {
                Some(asset) => is_asset_suffix(asset@.suffix) && group_node(
                    NodeModel::File(file@),
                    root@,
                ) == Some(asset@),
                None => !(group_node(NodeModel::File(file@), root@) matches Some(node)
                    && is_asset_suffix(node.suffix)),
            },
    {
        let node = match ArticleGroupNode::from_node(FSNode::File(file.duplicate()), root) {
            Some(node) => node,
            None => {
                return None;
            },
        };
        proof {
            if node.suffix_components@.len() > 0 {
                assert(texts(node.suffix_components@)[0] == node.suffix_components@[0]@);
            }
        }
        if node.suffix_components.len() > 1 && same_text(
            node.suffix_components[0].as_str(),
            "assets",
        ) {
            Some(AssetFile(node))
        } else {
            None
        }
    }

    /// The file.
    pub fn file(&self) -> (file: &File)
        ensures
            self@.node == NodeModel::File(file@),
    {
        proof {
            use_type_invariant(self);
        }
        match &self.0.node {
            FSNode::File(file) => file,
            _ => vstd::pervasive::unreached(),
        }
    }

    /// The group that the asset belongs to.
    pub fn group(&self) -> (group: ArticleGroup)
        ensures
            group == self@.group,
    {
        self.0.group
    }
}

/// The directory `assets` of a group.
#[derive(Debug)]
pub struct AssetRootDir(ArticleGroupNode);

impl View for AssetRootDir {
    type V = GroupNodeModel;

    closed spec fn view(&self) -> GroupNodeModel {
        self.0@
    }
}

/// What a list of asset directories holds.
pub open spec fn asset_roots_view(v: Seq<AssetRootDir>) -> Seq<GroupNodeModel> {
    Seq::new(v.len(), |i: int| v[i]@)
}

/// Those of the first `n` of `directories`, found under the content root
/// `root`, that are the directory `assets` of a group, in order.
pub open spec fn asset_roots_among(directories: Seq<Seq<char>>, root: Seq<char>, n: nat) -> Seq<
    GroupNodeModel,
>
    decreases n,
{
    if n == 0 || n > directories.len() {
        Seq::empty()
    } else {
        let before = asset_roots_among(directories, root, (n - 1) as nat);
        match group_node(NodeModel::Directory(directories[n - 1]), root) {
            Some(node) if is_asset_root_suffix(node.suffix) => before.push(node),
            _ => before,
        }
    }
}

/// The paths of `directories`.
pub open spec fn directory_paths(directories: Seq<Directory>) -> Seq<Seq<char>> {
    Seq::new(directories.len(), |i: int| directories[i]@)
}

impl AssetRootDir {
    #[verifier::type_invariant]
    closed spec fn well_formed(self) -> bool {
        self.0@.node is Directory
    }

    /// The directories among `directories`, found under the content root
    /// `root`, that hold the assets of a group, in the order of
    /// `directories`.
    pub fn scan(directories: &Vec<Directory>, root: &Directory) -> (found: Vec<AssetRootDir>)
        ensures
            asset_roots_view(found@) == asset_roots_among(
                directory_paths(directories@),
                root@,
                directories@.len(),
            ),
    {
        let mut found: Vec<AssetRootDir> = Vec::new();
        let mut i: usize = 0;
        proof {
            assert(asset_roots_view(found@) =~= Seq::<GroupNodeModel>::empty());
        }
        while i < directories.len()
            invariant
                i <= directories.len(),
                asset_roots_view(found@) == asset_roots_among(
                    directory_paths(directories@),
                    root@,
                    i as nat,
                ),
            decreases directories.len() - i,
        {
            proof {
                assert(directory_paths(directories@)[i as int] == directories@[i as int]@);
            }
            match AssetRootDir::from_dir(&directories[i], root) {
                Some(assets) => {
                    proof {
                        assert(asset_roots_view(found@.push(assets)) =~= asset_roots_view(
                            found@,
                        ).push(assets@));
                    }
                    found.push(assets);
                },
                None => {},
            }
            i += 1;
        }
        found
    }

    /// The group whose assets the directory holds.
    pub fn group(&self) -> (group: ArticleGroup)
        ensures
            group == self@.group,
    {
        self.0.group
    }

    /// The directory `dir` found under the content root `root` as the
    /// directory of a group's assets, if its path makes it one.
    pub fn from_dir(dir: &Directory, root: &Directory) -> (found: Option<AssetRootDir>)
        ensures
            match found {
                Some(assets) => is_asset_root_suffix(assets@.suffix) && group_node(
                    NodeModel::Directory(dir@),
                    root@,
                ) == Some(assets@),
                None => !(group_node(NodeModel::Directory(dir@), root@) matches Some(node)
                    && is_asset_root_suffix(node.suffix)),
            },
    {
        let node = match ArticleGroupNode::from_node(FSNode::Directory(dir.duplicate()), root) {
            Some(node) => node,
            None => {
                return None;
            },
        };
        proof {
            if node.suffix_components@.len() > 0 {
                assert(texts(node.suffix_components@)[0] == node.suffix_components@[0]@);
            }
        }
        if node.suffix_components.len() == 1 && same_text(
            node.suffix_components[0].as_str(),
            "assets",
        ) {
            Some(AssetRootDir(node))
        } else {
            None
        }
    }

    /// The directory.
    pub fn directory(&self) -> (directory: &Directory)
        ensures
            self@.node == NodeModel::Directory(directory@),
    {
        proof {
            use_type_invariant(self);
        }
        match &self.0.node {
            FSNode::Directory(directory) => directory,
            _ => vstd::pervasive::unreached(),
        }
    }
}

/// Who an article is: its group, its date and its slug.
#[derive(Debug)]
pub struct ArticleIdentity {
    pub group: ArticleGroup,
    /// Year, month and day; the day is 0 where the file name gives none.
    pub date: (u32, u32, u32),
    pub slug: String,
}

pub ghost struct IdentityModel {
    pub group: ArticleGroup,
    pub date: (u32, u32, u32),
    pub slug: Seq<char>,
}

impl View for ArticleIdentity {
    type V = IdentityModel;

    open spec fn view(&self) -> IdentityModel {
        IdentityModel { group: self.group, date: self.date, slug: self.slug@ }
    }
}

/// The place of the first `c` in `s`; the length of `s` if there is
/// none.
pub open spec fn first_index(s: Seq<char>, c: char) -> nat
    decreases s.len(),
{
    if s.len() == 0 || s[0] == c {
        0
    } else {
        1 + first_index(s.drop_first(), c)
    }
}

/// What `first_index` finds: the first place that holds `c`, and no
/// other.
pub proof fn lemma_first_index(s: Seq<char>, c: char, k: int)
    requires
        0 <= k <= s.len(),
        forall|j: int| 0 <= j < k ==> #[trigger] s[j] != c,
        k < s.len() ==> s[k] == c,
    ensures
        first_index(s, c) == k,
    decreases s.len(),
{
    if s.len() > 0 && k > 0 {
        assert(s[0] != c);
        let rest = s.drop_first();
        assert forall|j: int| 0 <= j < k - 1 implies #[trigger] rest[j] != c by {
            assert(rest[j] == s[j + 1]);
        }
        lemma_first_index(rest, c, k - 1);
    }
}

/// The day that the head `head` of a file name gives: `head` is a day, or
/// a day and a number with `-` between them.
pub open spec fn day_of(head: Seq<char>) -> Option<u32> {
    let dash = first_index(head, '-') as int;
    let day = head.subrange(0, dash);
    if is_number(day) && decimal_value(day) <= u32::MAX && (dash == head.len() || is_number(
        head.subrange(dash + 1, head.len() as int),
    )) {
        Some(decimal_value(day) as u32)
    } else {
        None
    }
}

/// Who the article in the Markdown file `name` of the group `group` is.
/// The slug is the name without its ending and without a day, or a day and
/// a number, that stands before a `_` at its head.
pub open spec fn identity(group: ArticleGroup, name: Seq<char>) -> IdentityModel {
    let stem = name.subrange(0, name.len() - 3);
    let cut = first_index(stem, '_') as int;
    if cut < stem.len() && day_of(stem.subrange(0, cut)) is Some {
        IdentityModel {
            group,
            date: (group.year, group.month, day_of(stem.subrange(0, cut))->0),
            slug: stem.subrange(cut + 1, stem.len() as int),
        }
    } else {
        IdentityModel { group, date: (group.year, group.month, 0), slug: stem }
    }
}

fn find_first(s: &Vec<char>, c: char) -> (k: usize)
    ensures
        k == first_index(s@, c),
        k <= s@.len(),
{
    let mut k: usize = 0;
    while k < s.len()
        invariant
            k <= s.len(),
            forall|j: int| 0 <= j < k ==> #[trigger] s@[j] != c,
        decreases s.len() - k,
    {
        if s[k] == c {
            proof {
                lemma_first_index(s@, c, k as int);
            }
            return k;
        }
        k += 1;
    }
    proof {
        lemma_first_index(s@, c, k as int);
    }
    k
}

fn sub_chars(s: &Vec<char>, from: usize, to: usize) -> (out: Vec<char>)
    requires
        from <= to <= s@.len(),
    ensures
        out@ == s@.subrange(from as int, to as int),
{
    let mut out: Vec<char> = Vec::new();
    let mut i: usize = from;
    while i < to
        invariant
            from <= i <= to <= s@.len(),
            out@ == s@.subrange(from as int, i as int),
        decreases to - i,
    {
        out.push(s[i]);
        i += 1;
        proof {
            assert(out@ =~= s@.subrange(from as int, i as int));
        }
    }
    out
}

fn day_in(head: &Vec<char>) -> (day: Option<u32>)
    ensures
        day == day_of(head@),
{
    let dash = find_first(head, '-');
    let day_part = sub_chars(head, 0, dash);
    proof {
        assert(day_part@.subrange(0, day_part@.len() as int) =~= day_part@);
    }
    let day = parse_digits(&day_part, 0);
    if dash < head.len() {
        let number = sub_chars(head, dash + 1, head.len());
        proof {
            assert(number@.subrange(0, number@.len() as int) =~= number@);
        }
        let mut i: usize = 0;
        if number.len() == 0 {
            return None;
        }
        while i < number.len()
            invariant
                i <= number.len(),
                dash < head@.len(),
                dash == first_index(head@, '-'),
                number@ == head@.subrange(dash + 1, head@.len() as int),
                forall|k: int| 0 <= k < i ==> is_digit(#[trigger] number@[k]),
            decreases number.len() - i,
        {
            if !(number[i] >= '0' && number[i] <= '9') {
                proof {
                    assert(!is_digit(number@[i as int]));
                }
                return None;
            }
            i += 1;
        }
    }
    day
}

impl ArticleIdentity {
    /// A copy of this identity.
    pub fn duplicate(&self) -> (copy: ArticleIdentity)
        ensures
            copy@ == self@,
    {
        ArticleIdentity { group: self.group, date: self.date, slug: self.slug.clone() }
    }

    /// Who the article in the Markdown file `name` of the group `group`
    /// is.
    pub fn from_file_name(group: ArticleGroup, name: &str) -> (id: ArticleIdentity)
        requires
            is_markdown_name(name@),
        ensures
            id@ == identity(group, name@),
    {
        let chars = chars_of(name);
        let stem = sub_chars(&chars, 0, chars.len() - 3);
        let cut = find_first(&stem, '_');
        if cut < stem.len() {
            let head = sub_chars(&stem, 0, cut);
            if let Some(day) = day_in(&head) {
                let slug = sub_chars(&stem, cut + 1, stem.len());
                return ArticleIdentity {
                    group,
                    date: (group.year, group.month, day),
                    slug: string_of(&slug),
                };
            }
        }
        ArticleIdentity { group, date: (group.year, group.month, 0), slug: string_of(&stem) }
    }
}

/// Those of the first `n` of `files` that are the source of an article of
/// the group `group`, in order.
pub open spec fn articles_of(
    files: Seq<Seq<char>>,
    root: Seq<char>,
    group: ArticleGroup,
    n: nat,
) -> Seq<GroupNodeModel>
    decreases n,
{
    if n == 0 || n > files.len() {
        Seq::empty()
    } else {
        let before = articles_of(files, root, group, (n - 1) as nat);
        match group_node(NodeModel::File(files[n - 1]), root) {
            Some(node) if node.group == group && is_article_suffix(node.suffix) => before.push(
                node,
            ),
            _ => before,
        }
    }
}

/// The sources of the articles of the first `n` of `groups` among
/// `files`, group by group.
pub open spec fn articles_in(
    files: Seq<Seq<char>>,
    root: Seq<char>,
    groups: Seq<ArticleGroup>,
    n: nat,
) -> Seq<GroupNodeModel>
    decreases n,
{
    if n == 0 || n > groups.len() {
        Seq::empty()
    } else {
        articles_in(files, root, groups, (n - 1) as nat) + articles_of(
            files,
            root,
            groups[n - 1],
            files.len(),
        )
    }
}

/// What a list of article sources holds.
pub open spec fn articles_view(v: Seq<ArticleFile>) -> Seq<GroupNodeModel> {
    Seq::new(v.len(), |i: int| v[i]@)
}

/// What a scan of the content root found: the groups, and the sources of
/// their articles.
pub struct ContentDirectory {
    pub dir: Directory,
    pub markdown_files: Vec<ArticleFile>,
    pub article_group: Vec<ArticleGroup>,
}

impl ContentDirectory {
    /// What lies under the content root `dir`, given the paths of the
    /// directories found below it, relative to it, and the files found
    /// below it. The groups come in
    /// ascending order, each once; the articles come group by group, and
    /// within a group in the order of `files`. Whatever is neither a group
    /// nor the source of an article is passed over.
    pub fn new(dir: &Directory, directories: &Vec<String>, files: &Vec<File>) -> (content:
        ContentDirectory)
        ensures
            content.dir@ == dir@,
            ascending(content.article_group@),
            forall|g: ArticleGroup|
                content.article_group@.contains(g) <==> groups_among(
                    texts(directories@),
                    directories@.len(),
                ).contains(g),
            articles_view(content.markdown_files@) == articles_in(
                file_paths(files@),
                dir@,
                content.article_group@,
                content.article_group@.len(),
            ),
            forall|i: int|
                0 <= i < content.markdown_files@.len() ==> (#[trigger] content.markdown_files@[i]).wf(),
    {
        let found = ArticleGroup::scan(directories);
        let article_group = sorted_groups(&found);
        let mut markdown_files: Vec<ArticleFile> = Vec::new();
        let mut g: usize = 0;
        proof {
            assert(articles_view(markdown_files@) =~= Seq::<GroupNodeModel>::empty());
        }
        while g < article_group.len()
            invariant
                g <= article_group.len(),
                articles_view(markdown_files@) == articles_in(
                    file_paths(files@),
                    dir@,
                    article_group@,
                    g as nat,
                ),
                forall|i: int|
                    0 <= i < markdown_files@.len() ==> (#[trigger] markdown_files@[i]).wf(),
            decreases article_group.len() - g,
        {
            let ghost before = articles_view(markdown_files@);
            let mut i: usize = 0;
            proof {
                assert(before + Seq::<GroupNodeModel>::empty() =~= before);
            }
            while i < files.len()
                invariant
                    i <= files.len(),
                    g < article_group.len(),
                    articles_view(markdown_files@) == before + articles_of(
                        file_paths(files@),
                        dir@,
                        article_group@[g as int],
                        i as nat,
                    ),
                    forall|k: int|
                        0 <= k < markdown_files@.len() ==> (#[trigger] markdown_files@[k]).wf(),
                decreases files.len() - i,
            {
                proof {
                    assert(file_paths(files@)[i as int] == files@[i as int]@);
                }
                match ArticleFile::from_file(&files[i], dir) {
                    Some(article) => {
                        if article.0.group == article_group[g] {
                            proof {
                                let sofar = articles_of(
                                    file_paths(files@),
                                    dir@,
                                    article_group@[g as int],
                                    i as nat,
                                );
                                assert(articles_view(markdown_files@.push(article))
                                    =~= articles_view(markdown_files@).push(article@));
                                assert((before + sofar).push(article@) =~= before + sofar.push(
                                    article@,
                                ));
                            }
                            markdown_files.push(article);
                        }
                    },
                    None => {},
                }
                i += 1;
            }
            g += 1;
        }
        ContentDirectory { dir: dir.duplicate(), markdown_files, article_group }
    }
}

/// The paths of `files`.
pub open spec fn file_paths(files: Seq<File>) -> Seq<Seq<char>> {
    Seq::new(files.len(), |i: int| files[i]@)
}

} // verus!

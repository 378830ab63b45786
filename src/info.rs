//! The metadata record of an installed package and its line-oriented format.
//!
//! A line that starts with whitespace is one entry of the file list. Any other line
//! is `key: value`, split at its first colon, with both sides trimmed; unknown keys
//! and lines without a colon are ignored.
use vstd::prelude::*;
use crate::error::PackageError;
use crate::number::UNKNOWN_PACKAGE_NUMBER;
use crate::text::{
    chars_of, is_whitespace, is_ws, lines_of, parse_digits, plus_value, signed_value,
    split_lines, string_of, trim, trim_bounds,
};

verus! {

/// Information about an installed package, as its metadata file gives it.
#[derive(Debug, Clone)]
pub struct PackageInfo {
    /// The package name
    pub name: String,
    /// The package description
    pub description: String,
    /// The version string for the package
    pub version: String,
    /// The extra version string for the package, usually blank
    pub extra_version: String,
    /// Host type, e.g. `linux64`
    pub host: String,
    /// Whether the package is public or private
    pub confidentiality: String,
    /// The name of the package, again (typically the same as `name`)
    pub package_name: String,
    /// The package number, or -1 where it is missing or malformed
    pub package_number: i64,
    /// A monotonically increasing build ID for the package number
    pub build_id: u64,
    /// Namespace for build IDs, `simics` for public/official packages
    pub build_id_namespace: String,
    /// The type of package, typically either `base` or `addon`
    pub typ: String,
    /// Long package name
    pub package_name_full: String,
    /// Complete list of files in the package
    pub files: Vec<String>,
}

/// What a metadata record holds, as mathematical values.
pub struct InfoModel {
    pub name: Seq<char>,
    pub description: Seq<char>,
    pub version: Seq<char>,
    pub extra_version: Seq<char>,
    pub host: Seq<char>,
    pub confidentiality: Seq<char>,
    pub package_name: Seq<char>,
    pub package_number: i64,
    pub build_id: u64,
    pub build_id_namespace: Seq<char>,
    pub typ: Seq<char>,
    pub package_name_full: Seq<char>,
    pub files: Seq<Seq<char>>,
}

impl View for PackageInfo {
    type V = InfoModel;

    open spec fn view(&self) -> InfoModel {
        InfoModel {
            name: self.name@,
            description: self.description@,
            version: self.version@,
            extra_version: self.extra_version@,
            host: self.host@,
            confidentiality: self.confidentiality@,
            package_name: self.package_name@,
            package_number: self.package_number,
            build_id: self.build_id,
            build_id_namespace: self.build_id_namespace@,
            typ: self.typ@,
            package_name_full: self.package_name_full@,
            files: self.files@.map_values(|f: String| f@),
        }
    }
}

/// The record of a file with no recognised line.
pub open spec fn blank_model() -> InfoModel {
    InfoModel {
        name: Seq::empty(),
        description: Seq::empty(),
        version: Seq::empty(),
        extra_version: Seq::empty(),
        host: Seq::empty(),
        confidentiality: Seq::empty(),
        package_name: Seq::empty(),
        package_number: UNKNOWN_PACKAGE_NUMBER,
        build_id: 0,
        build_id_namespace: Seq::empty(),
        typ: Seq::empty(),
        package_name_full: Seq::empty(),
        files: Seq::empty(),
    }
}

/// The position of the first `c` in `l`, or -1 where there is none.
pub open spec fn first_index(l: Seq<char>, c: char) -> int
    decreases l.len(),
{
    if l.len() == 0 {
        -1
    } else if l[0] == c {
        0
    } else {
        let r = first_index(l.drop_first(), c);
        if r < 0 {
            -1
        } else {
            r + 1
        }
    }
}

/// Whether a line is an entry of the file list: it starts with whitespace.
pub open spec fn is_list_line(l: Seq<char>) -> bool {
    l.len() > 0 && is_ws(l[0])
}

/// The package number a value gives: its decimal value where that fits, else -1.
pub open spec fn number_value(v: Seq<char>) -> i64 {
    match signed_value(v) {
        Some(x) => if i64::MIN <= x <= i64::MAX {
            x as i64
        } else {
            UNKNOWN_PACKAGE_NUMBER
        },
        None => UNKNOWN_PACKAGE_NUMBER,
    }
}

/// The build id a value gives: its decimal value where that fits, else 0.
pub open spec fn build_id_value(v: Seq<char>) -> u64 {
    match plus_value(v) {
        Some(x) => if x <= u64::MAX {
            x as u64
        } else {
            0
        },
        None => 0,
    }
}

/// The key of a `key: value` line, if it has a colon.
pub open spec fn line_key(l: Seq<char>) -> Seq<char> {
    trim(l.subrange(0, first_index(l, ':')))
}

/// The value of a `key: value` line: all after the first colon, trimmed.
pub open spec fn line_value(l: Seq<char>) -> Seq<char> {
    trim(l.subrange(first_index(l, ':') + 1, l.len() as int))
}

/// The record once a key is set to a value; an unknown key changes nothing.
pub open spec fn set_field(m: InfoModel, k: Seq<char>, v: Seq<char>) -> InfoModel {
    if k == "name"@ {
        InfoModel { name: v, ..m }
    } else if k == "description"@ {
        InfoModel { description: v, ..m }
    } else if k == "version"@ {
        InfoModel { version: v, ..m }
    } else if k == "extra-version"@ {
        InfoModel { extra_version: v, ..m }
    } else if k == "host"@ {
        InfoModel { host: v, ..m }
    } else if k == "confidentiality"@ {
        InfoModel { confidentiality: v, ..m }
    } else if k == "package-name"@ {
        InfoModel { package_name: v, ..m }
    } else if k == "package-number"@ {
        InfoModel { package_number: number_value(v), ..m }
    } else if k == "build-id"@ {
        InfoModel { build_id: build_id_value(v), ..m }
    } else if k == "build-id-namespace"@ {
        InfoModel { build_id_namespace: v, ..m }
    } else if k == "type"@ {
        InfoModel { typ: v, ..m }
    } else if k == "package-name-full"@ {
        InfoModel { package_name_full: v, ..m }
    } else {
        m
    }
}

/// The record after one more line.
pub open spec fn apply_line(m: InfoModel, l: Seq<char>) -> InfoModel {
    if is_list_line(l) {
        InfoModel { files: m.files.push(trim(l)), ..m }
    } else if first_index(l, ':') < 0 {
        m
    } else {
        set_field(m, line_key(l), line_value(l))
    }
}

/// The record that a sequence of lines gives, read from first to last.
pub open spec fn parse_lines(ls: Seq<Seq<char>>) -> InfoModel
    decreases ls.len(),
{
    if ls.len() == 0 {
        blank_model()
    } else {
        apply_line(parse_lines(ls.drop_last()), ls.last())
    }
}

/// The record that a metadata text gives.
pub open spec fn parse_info(text: Seq<char>) -> InfoModel {
    parse_lines(lines_of(text))
}

/// The first segment of a relative path: all before its first `/`.
pub open spec fn first_segment(f: Seq<char>) -> Seq<char> {
    if first_index(f, '/') < 0 {
        f
    } else {
        f.subrange(0, first_index(f, '/'))
    }
}

/// A path joined to a directory, with one separator between them.
pub open spec fn join_path(dir: Seq<char>, seg: Seq<char>) -> Seq<char> {
    if dir.len() == 0 {
        seg
    } else if dir.last() == '/' {
        dir + seg
    } else {
        dir + seq!['/'] + seg
    }
}

proof fn lemma_first_index(l: Seq<char>, c: char, k: int)
    requires
        0 <= k <= l.len(),
        forall|j: int| 0 <= j < k ==> l[j] != c,
        k < l.len() ==> l[k] == c,
    ensures
        first_index(l, c) == (if k == l.len() {
            -1
        } else {
            k
        }),
    decreases l.len(),
{
    if l.len() > 0 && k > 0 {
        lemma_first_index(l.drop_first(), c, k - 1);
    }
}

/// The position of the first `c` in `l`, or the length of `l` where there is none.
fn find_char(l: &Vec<char>, c: char) -> (r: usize)
    ensures
        r <= l@.len(),
        r == l@.len() <==> first_index(l@, c) < 0,
        r < l@.len() ==> r == first_index(l@, c),
{
    let mut i: usize = 0;
    while i < l.len() && l[i] != c
        invariant
            i <= l@.len(),
            forall|j: int| 0 <= j < i ==> l@[j] != c,
        decreases l@.len() - i,
    {
        i = i + 1;
    }
    proof {
        lemma_first_index(l@, c, i as int);
    }
    i
}

/// The characters `l[a..b]` as a string.
fn text_of(l: &Vec<char>, a: usize, b: usize) -> (r: String)
    requires
        a <= b <= l@.len(),
    ensures
        r@ == l@.subrange(a as int, b as int),
{
    let mut v: Vec<char> = Vec::new();
    let mut i: usize = a;
    while i < b
        invariant
            a <= i <= b <= l@.len(),
            v@ == l@.subrange(a as int, i as int),
        decreases b - i,
    {
        v.push(l[i]);
        assert(l@.subrange(a as int, i + 1) =~= l@.subrange(a as int, i as int).push(
            l@[i as int],
        ));
        i = i + 1;
    }
    string_of(v.as_slice())
}

/// Whether `l[a..b]` is exactly `key`.
fn is_key(l: &Vec<char>, a: usize, b: usize, key: &str) -> (r: bool)
    requires
        a <= b <= l@.len(),
    ensures
        r == (l@.subrange(a as int, b as int) == key@),
{
    let k = chars_of(key);
    if b - a != k.len() {
        return false;
    }
    let mut i: usize = 0;
    while i < k.len()
        invariant
            b - a == k@.len(),
            k@ == key@,
            a <= b <= l@.len(),
            i <= k@.len(),
            forall|j: int| 0 <= j < i ==> l@[a + j] == k@[j],
        decreases k@.len() - i,
    {
        if l[a + i] != k[i] {
            assert(l@.subrange(a as int, b as int)[i as int] != key@[i as int]);
            return false;
        }
        i = i + 1;
    }
    assert(l@.subrange(a as int, b as int) =~= key@);
    true
}

/// The package number that `l[lo..hi]` gives.
fn parse_number(l: &Vec<char>, lo: usize, hi: usize) -> (r: i64)
    requires
        lo <= hi <= l@.len(),
    ensures
        r == number_value(l@.subrange(lo as int, hi as int)),
{
    let ghost s = l@.subrange(lo as int, hi as int);
    if lo < hi && (l[lo] == '-' || l[lo] == '+') {
        assert(s.drop_first() =~= l@.subrange(lo + 1, hi as int));
        let m = parse_digits(l, lo + 1, hi);
        match m {
            Some(m) => {
                if l[lo] == '-' {
                    if m <= 0x8000_0000_0000_0000u64 {
                        if m == 0x8000_0000_0000_0000u64 {
                            i64::MIN
                        } else {
                            -(m as i64)
                        }
                    } else {
                        UNKNOWN_PACKAGE_NUMBER
                    }
                } else if m <= i64::MAX as u64 {
                    m as i64
                } else {
                    UNKNOWN_PACKAGE_NUMBER
                }
            },
            None => UNKNOWN_PACKAGE_NUMBER,
        }
    } else {
        match parse_digits(l, lo, hi) {
            Some(m) => {
                if m <= i64::MAX as u64 {
                    m as i64
                } else {
                    UNKNOWN_PACKAGE_NUMBER
                }
            },
            None => UNKNOWN_PACKAGE_NUMBER,
        }
    }
}

/// The build id that `l[lo..hi]` gives.
fn parse_build_id(l: &Vec<char>, lo: usize, hi: usize) -> (r: u64)
    requires
        lo <= hi <= l@.len(),
    ensures
        r == build_id_value(l@.subrange(lo as int, hi as int)),
{
    let ghost s = l@.subrange(lo as int, hi as int);
    let m = if lo < hi && l[lo] == '+' {
        assert(s.drop_first() =~= l@.subrange(lo + 1, hi as int));
        parse_digits(l, lo + 1, hi)
    } else {
        parse_digits(l, lo, hi)
    };
    match m {
        Some(m) => m,
        None => 0,
    }
}

impl Default for PackageInfo {
    /// A blank record: empty texts, no files, package number -1 and build id 0.
    fn default() -> (r: PackageInfo)
        ensures
            r@ == blank_model(),
    {
        let r = PackageInfo {
            name: String::new(),
            description: String::new(),
            version: String::new(),
            extra_version: String::new(),
            host: String::new(),
            confidentiality: String::new(),
            package_name: String::new(),
            package_number: UNKNOWN_PACKAGE_NUMBER,
            build_id: 0,
            build_id_namespace: String::new(),
            typ: String::new(),
            package_name_full: String::new(),
            files: Vec::new(),
        };
        assert(r@.files =~= Seq::<Seq<char>>::empty());
        r
    }
}

impl PackageInfo {
    /// A copy of the record.
    pub fn duplicate(&self) -> (r: PackageInfo)
        ensures
            r@ == self@,
    {
        let mut files: Vec<String> = Vec::new();
        let mut i: usize = 0;
        while i < self.files.len()
            invariant
                i <= self.files@.len(),
                files@.len() == i,
                forall|j: int| 0 <= j < i ==> #[trigger] files@[j]@ == self.files@[j]@,
            decreases self.files@.len() - i,
        {
            files.push(self.files[i].clone());
            i = i + 1;
        }
        let r = PackageInfo {
            name: self.name.clone(),
            description: self.description.clone(),
            version: self.version.clone(),
            extra_version: self.extra_version.clone(),
            host: self.host.clone(),
            confidentiality: self.confidentiality.clone(),
            package_name: self.package_name.clone(),
            package_number: self.package_number,
            build_id: self.build_id,
            build_id_namespace: self.build_id_namespace.clone(),
            typ: self.typ.clone(),
            package_name_full: self.package_name_full.clone(),
            files,
        };
        assert(r@.files =~= self@.files);
        r
    }

    /// Reads one line of a metadata file into the record.
    pub fn apply_line(&mut self, l: &Vec<char>)
        ensures
            final(self)@ == apply_line(old(self)@, l@),
    {
        let n = l.len();
        if n > 0 && is_whitespace(l[0]) {
            let (a, b) = trim_bounds(l, 0, n);
            let f = text_of(l, a, b);
            self.files.push(f);
            assert(l@.subrange(0, n as int) =~= l@);
            assert(self@.files =~= old(self)@.files.push(trim(l@)));
            return;
        }
        let k = find_char(l, ':');
        if k == n {
            return;
        }
        let (ka, kb) = trim_bounds(l, 0, k);
        let (va, vb) = trim_bounds(l, k + 1, n);
        let ghost v = l@.subrange(va as int, vb as int);
        assert(l@.subrange(0, n as int) =~= l@);
        if is_key(l, ka, kb, "name") {
            self.name = text_of(l, va, vb);
        } else if is_key(l, ka, kb, "description") {
            self.description = text_of(l, va, vb);
        } else if is_key(l, ka, kb, "version") {
            self.version = text_of(l, va, vb);
        } else if is_key(l, ka, kb, "extra-version") {
            self.extra_version = text_of(l, va, vb);
        } else if is_key(l, ka, kb, "host") {
            self.host = text_of(l, va, vb);
        } else if is_key(l, ka, kb, "confidentiality") {
            self.confidentiality = text_of(l, va, vb);
        } else if is_key(l, ka, kb, "package-name") {
            self.package_name = text_of(l, va, vb);
        } else if is_key(l, ka, kb, "package-number") {
            self.package_number = parse_number(l, va, vb);
        } else if is_key(l, ka, kb, "build-id") {
            self.build_id = parse_build_id(l, va, vb);
        } else if is_key(l, ka, kb, "build-id-namespace") {
            self.build_id_namespace = text_of(l, va, vb);
        } else if is_key(l, ka, kb, "type") {
            self.typ = text_of(l, va, vb);
        } else if is_key(l, ka, kb, "package-name-full") {
            self.package_name_full = text_of(l, va, vb);
        }
    }

    /// The path of the package's directory under the installation root `simics_home`:
    /// the first segment of its first file, joined to the root.
    pub fn get_package_path(&self, simics_home: &str) -> (r: Result<String, PackageError>)
        ensures
            self@.files.len() == 0 ==> r == Err::<String, PackageError>(PackageError::NoFiles),
            self@.files.len() > 0 ==> r is Ok && r->Ok_0@ == join_path(
                simics_home@,
                first_segment(self@.files[0]),
            ),
    {
        if self.files.len() == 0 {
            return Err(PackageError::NoFiles);
        }
        let f = chars_of(self.files[0].as_str());
        let k = find_char(&f, '/');
        let home = chars_of(simics_home);
        let mut out: Vec<char> = home.clone();
        assert(out@ == home@);
        if home.len() > 0 && home[home.len() - 1] != '/' {
            out.push('/');
        }
        let ghost base = out@;
        let mut i: usize = 0;
        while i < k
            invariant
                k <= f@.len(),
                i <= k,
                out@ == base + f@.subrange(0, i as int),
            decreases k - i,
        {
            out.push(f[i]);
            assert(f@.subrange(0, i + 1) =~= f@.subrange(0, i as int).push(f@[i as int]));
            i = i + 1;
        }
        assert(f@.subrange(0, f@.len() as int) =~= f@);
        assert(out@ =~= join_path(simics_home@, first_segment(self@.files[0])));
        Ok(string_of(out.as_slice()))
    }
}

/// Parses the text of a metadata file into a record. Never fails: a missing field
/// keeps its blank value, a malformed package number gives -1, a malformed build id 0.
pub fn parse_package_info(text: &str) -> (r: PackageInfo)
    ensures
        r@ == parse_info(text@),
{
    let cs = chars_of(text);
    let lines = split_lines(&cs);
    let mut info = PackageInfo::default();
    let mut i: usize = 0;
    while i < lines.len()
        invariant
            i <= lines@.len(),
            lines@.len() == lines_of(text@).len(),
            forall|j: int| 0 <= j < lines@.len() ==> #[trigger] lines@[j]@ == lines_of(text@)[j],
            info@ == parse_lines(lines_of(text@).subrange(0, i as int)),
        decreases lines@.len() - i,
    {
        info.apply_line(&lines[i]);
        assert(lines_of(text@).subrange(0, i + 1).drop_last() =~= lines_of(text@).subrange(
            0,
            i as int,
        ));
        i = i + 1;
    }
    assert(lines_of(text@).subrange(0, i as int) =~= lines_of(text@));
    info
}

/// The trimmed text of every list line, in order.
pub open spec fn list_entries(ls: Seq<Seq<char>>) -> Seq<Seq<char>>
    decreases ls.len(),
{
    if ls.len() == 0 {
        Seq::empty()
    } else if is_list_line(ls.last()) {
        list_entries(ls.drop_last()).push(trim(ls.last()))
    } else {
        list_entries(ls.drop_last())
    }
}

/// Whether a line sets the package number.
pub open spec fn is_number_line(l: Seq<char>) -> bool {
    !is_list_line(l) && first_index(l, ':') >= 0 && line_key(l) == "package-number"@
}

/// Two records parsed from the same text are equal, field for field.
pub proof fn law_parse_deterministic(text: Seq<char>, a: PackageInfo, b: PackageInfo)
    requires
        a@ == parse_info(text),
        b@ == parse_info(text),
    ensures
        a@ == b@,
        a.name@ == b.name@,
        a.version@ == b.version@,
        a.package_number == b.package_number,
        a.build_id == b.build_id,
        a@.files == b@.files,
{
}

proof fn lemma_files_are_list_entries(ls: Seq<Seq<char>>)
    ensures
        parse_lines(ls).files == list_entries(ls),
    decreases ls.len(),
{
    if ls.len() > 0 {
        lemma_files_are_list_entries(ls.drop_last());
    }
}

/// The file list of a parsed record is exactly the trimmed text of the lines that
/// start with whitespace, in their order in the text.
pub proof fn law_files_are_indented_lines(text: Seq<char>)
    ensures
        parse_info(text).files == list_entries(lines_of(text)),
{
    lemma_files_are_list_entries(lines_of(text));
}

proof fn lemma_invalid_number_lines(ls: Seq<Seq<char>>)
    requires
        forall|i: int|
            0 <= i < ls.len() && is_number_line(#[trigger] ls[i]) ==> signed_value(
                line_value(ls[i]),
            ) is None,
    ensures
        parse_lines(ls).package_number == UNKNOWN_PACKAGE_NUMBER,
    decreases ls.len(),
{
    if ls.len() > 0 {
        assert forall|i: int|
            0 <= i < ls.drop_last().len() && is_number_line(
                #[trigger] ls.drop_last()[i],
            ) implies signed_value(line_value(ls.drop_last()[i])) is None by {
            assert(ls.drop_last()[i] == ls[i]);
        }
        lemma_invalid_number_lines(ls.drop_last());
        assert(is_number_line(ls.last()) ==> signed_value(line_value(ls[ls.len() - 1])) is None);
    }
}

/// A text in which every `package-number` line holds no valid integer, or which has
/// no such line at all, gives the package number -1.
pub proof fn law_invalid_number_is_unknown(text: Seq<char>)
    requires
        forall|i: int|
            0 <= i < lines_of(text).len() && is_number_line(#[trigger] lines_of(text)[i])
                ==> signed_value(line_value(lines_of(text)[i])) is None,
    ensures
        parse_info(text).package_number == UNKNOWN_PACKAGE_NUMBER,
{
    lemma_invalid_number_lines(lines_of(text));
}

} // verus!

use vstd::prelude::*;
use vstd::string::StringExecFns;
use crate::models::{RepoView, Repository, clone_repos, repos_view};
use crate::text::{
    before_char, before_first, lemma_before_char_at, chars_of, ends_with, ends_with_spec, push_char, split,
    split_spec, str_eq,
};

verus! {

/// One day's fetched repositories, as they are archived.  `created_at` is a
/// Unix timestamp in seconds.
pub struct DailyData {
    pub date: String,
    pub name: String,
    pub repositories: Vec<Repository>,
    pub created_at: i64,
}

/// The archive of daily data under a base directory, laid out as
/// `base/YYYY/MM-DD/YYYY-MM-DD_name.json`.
pub struct DataStorage {
    base_dir: String,
}

/// Where a day's data is archived, relative to the storage's base directory.
pub struct ArchivePath {
    pub year: String,
    pub month_day: String,
    pub file_name: String,
}

/// The year directory and the month-day directory for `date`: a date of the
/// form `YYYY-MM-DD` (three pieces between dashes) gives `YYYY` and `MM-DD`;
/// any other date goes to `unknown/<date>`.
pub open spec fn archive_dirs(date: Seq<char>) -> (Seq<char>, Seq<char>) {
    let parts = split_spec(date, '-');
    if parts.len() == 3 {
        (parts[0], parts[1].push('-') + parts[2])
    } else {
        ("unknown"@, date)
    }
}

/// The file name under which the data `name` of `date` is archived.
pub open spec fn archive_file_name(date: Seq<char>, name: Seq<char>) -> Seq<char> {
    date.push('_') + name + ".json"@
}

/// The date an archived file name stands for: the part before its first
/// underscore, for `.json` files only.
pub open spec fn date_of_entry(file_name: Seq<char>) -> Option<Seq<char>> {
    if ends_with_spec(file_name, ".json"@) {
        Some(before_char(file_name, '_'))
    } else {
        None
    }
}

/// Strict lexicographic order on character sequences by code point, which is
/// the order of `String`s (UTF-8 keeps the order of code points).
pub open spec fn seq_lt(a: Seq<char>, b: Seq<char>) -> bool
    decreases a.len(),
{
    if a.len() == 0 {
        b.len() > 0
    } else if b.len() == 0 {
        false
    } else if a[0] == b[0] {
        seq_lt(a.drop_first(), b.drop_first())
    } else {
        (a[0] as int) < (b[0] as int)
    }
}

pub proof fn lemma_seq_lt_irreflexive(a: Seq<char>)
    ensures
        !seq_lt(a, a),
    decreases a.len(),
{
    if a.len() > 0 {
        lemma_seq_lt_irreflexive(a.drop_first());
    }
}

pub proof fn lemma_seq_lt_transitive(a: Seq<char>, b: Seq<char>, c: Seq<char>)
    requires
        seq_lt(a, b),
        seq_lt(b, c),
    ensures
        seq_lt(a, c),
    decreases a.len(),
{
    if a.len() > 0 && b.len() > 0 && c.len() > 0 {
        if a[0] == b[0] && b[0] == c[0] {
            lemma_seq_lt_transitive(a.drop_first(), b.drop_first(), c.drop_first());
        }
    }
}

pub proof fn lemma_seq_lt_total(a: Seq<char>, b: Seq<char>)
    requires
        a != b,
    ensures
        seq_lt(a, b) || seq_lt(b, a),
    decreases a.len(),
{
    if a.len() > 0 && b.len() > 0 && a[0] == b[0] {
        if a.drop_first() == b.drop_first() {
            assert(a =~= seq![a[0]] + a.drop_first());
            assert(b =~= seq![b[0]] + b.drop_first());
        }
        lemma_seq_lt_total(a.drop_first(), b.drop_first());
    } else if a.len() > 0 && b.len() > 0 {
        assert((a[0] as int) != (b[0] as int));
    } else if a.len() == 0 && b.len() == 0 {
        assert(a =~= b);
    }
}

/// Whether `a` comes strictly before `b` in the order of strings.
pub fn str_lt(a: &str, b: &str) -> (r: bool)
    ensures
        r == seq_lt(a@, b@),
{
    let x = chars_of(a);
    let y = chars_of(b);
    let mut i: usize = 0;
    assert(a@.skip(0) =~= a@);
    assert(b@.skip(0) =~= b@);
    while i < x.len() && i < y.len() && x[i] == y[i]
        invariant
            x@ == a@,
            y@ == b@,
            i <= x.len(),
            i <= y.len(),
            seq_lt(a@, b@) == seq_lt(a@.skip(i as int), b@.skip(i as int)),
        decreases x.len() - i,
    {
        proof {
            let s = a@.skip(i as int);
            let t = b@.skip(i as int);
            assert(s.drop_first() =~= a@.skip(i + 1));
            assert(t.drop_first() =~= b@.skip(i + 1));
        }
        i = i + 1;
    }
    if i == x.len() {
        i < y.len()
    } else if i == y.len() {
        false
    } else {
        x[i] < y[i]
    }
}

/// Whether `s` is in strictly increasing string order.
pub open spec fn strictly_sorted(s: Seq<Seq<char>>) -> bool {
    forall|i: int, j: int| 0 <= i < j < s.len() ==> seq_lt(s[i], s[j])
}

/// Whether some file of `files` (up to index `n`) is archived data of `date`.
pub open spec fn has_date_entry(files: Seq<Seq<char>>, n: int, date: Seq<char>) -> bool {
    exists|k: int| 0 <= k < n && date_of_entry(files[k]) == Some(date)
}

/// Inserts `d` into the strictly sorted `dates`, unless it is there already.
fn insert_sorted_unique(dates: &mut Vec<String>, d: String)
    requires
        strictly_sorted(old(dates).deep_view()),
    ensures
        strictly_sorted(final(dates).deep_view()),
        forall|x: Seq<char>|
            final(dates).deep_view().contains(x) <==> (old(dates).deep_view().contains(x)
                || x == d@),
{
    let ghost old_dv = dates.deep_view();
    let mut q: usize = 0;
    while q < dates.len() && str_lt(dates[q].as_str(), d.as_str())
        invariant
            dates.deep_view() == old_dv,
            strictly_sorted(old_dv),
            q <= dates.len(),
            forall|k: int| 0 <= k < q ==> seq_lt(old_dv[k], d@),
        decreases dates.len() - q,
    {
        q = q + 1;
    }
    if q < dates.len() && str_eq(dates[q].as_str(), d.as_str()) {
        assert(old_dv.contains(d@)) by {
            assert(old_dv[q as int] == d@);
        }
        return;
    }
    proof {
        if q < old_dv.len() {
            lemma_seq_lt_total(old_dv[q as int], d@);
        }
    }
    let ghost dv_before = dates.deep_view();
    dates.insert(q, d);
    let ghost new_dv = dates.deep_view();
    proof {
        assert(new_dv =~= old_dv.insert(q as int, d@));
        assert forall|i: int, j: int| 0 <= i < j < new_dv.len() implies seq_lt(
            new_dv[i],
            new_dv[j],
        ) by {
            if j < q {
            } else if j == q {
            } else if i < q {
                // old_dv[i] < d < old_dv[q] <= old_dv[j - 1]
                if j - 1 > q {
                    lemma_seq_lt_transitive(old_dv[i], old_dv[q as int], old_dv[j - 1]);
                }
            } else if i == q {
                if j - 1 > q {
                    lemma_seq_lt_transitive(d@, old_dv[q as int], old_dv[j - 1]);
                }
            } else {
            }
        }
        assert forall|x: Seq<char>| new_dv.contains(x) <==> (old_dv.contains(x) || x == d@) by {
            if new_dv.contains(x) {
                let k = choose|k: int| 0 <= k < new_dv.len() && new_dv[k] == x;
                if k < q {
                    assert(old_dv[k] == x);
                } else if k > q {
                    assert(old_dv[k - 1] == x);
                }
            }
            if old_dv.contains(x) {
                let k = choose|k: int| 0 <= k < old_dv.len() && old_dv[k] == x;
                if k < q {
                    assert(new_dv[k] == x);
                } else {
                    assert(new_dv[k + 1] == x);
                }
            }
            if x == d@ {
                assert(new_dv[q as int] == x);
            }
        }
    }
}

/// The distinct dates of the archived `.json` files among `file_names`, in
/// increasing order: what `list_dates` reports for the files it finds.
pub fn collect_dates(file_names: &Vec<String>) -> (dates: Vec<String>)
    ensures
        strictly_sorted(dates.deep_view()),
        forall|d: Seq<char>|
            dates.deep_view().contains(d) <==> has_date_entry(
                file_names.deep_view(),
                file_names.len() as int,
                d,
            ),
{
    let ghost files = file_names.deep_view();
    let mut dates: Vec<String> = Vec::new();
    let mut i: usize = 0;
    while i < file_names.len()
        invariant
            files == file_names.deep_view(),
            i <= file_names.len(),
            strictly_sorted(dates.deep_view()),
            forall|d: Seq<char>|
                dates.deep_view().contains(d) <==> has_date_entry(files, i as int, d),
        decreases file_names.len() - i,
    {
        let f = file_names[i].as_str();
        assert(files[i as int] == f@);
        let ghost before = dates.deep_view();
        if ends_with(f, ".json") {
            let d = before_first(f, '_');
            insert_sorted_unique(&mut dates, d);
            proof {
                assert forall|x: Seq<char>|
                    dates.deep_view().contains(x) <==> has_date_entry(files, i + 1, x) by {
                    if has_date_entry(files, i + 1, x) {
                        let k = choose|k: int|
                            0 <= k < i + 1 && date_of_entry(files[k]) == Some(x);
                        if k < i {
                            assert(has_date_entry(files, i as int, x));
                        }
                    }
                    if has_date_entry(files, i as int, x) {
                        let k = choose|k: int|
                            0 <= k < i && date_of_entry(files[k]) == Some(x);
                        assert(has_date_entry(files, i + 1, x));
                    }
                    if x == before_char(f@, '_') {
                        assert(date_of_entry(files[i as int]) == Some(x));
                    }
                }
            }
        } else {
            proof {
                assert forall|x: Seq<char>|
                    dates.deep_view().contains(x) <==> has_date_entry(files, i + 1, x) by {
                    if has_date_entry(files, i + 1, x) {
                        let k = choose|k: int|
                            0 <= k < i + 1 && date_of_entry(files[k]) == Some(x);
                        if k < i {
                            assert(has_date_entry(files, i as int, x));
                        }
                    }
                    if has_date_entry(files, i as int, x) {
                        let k = choose|k: int|
                            0 <= k < i && date_of_entry(files[k]) == Some(x);
                        assert(has_date_entry(files, i + 1, x));
                    }
                }
            }
        }
        i = i + 1;
    }
    dates
}

impl DataStorage {
    /// The storage's base directory.
    pub closed spec fn base_dir_view(&self) -> Seq<char> {
        self.base_dir@
    }

    /// A storage rooted at `base_path` (the directory itself is made by the
    /// caller).
    pub fn new(base_path: &str) -> (r: DataStorage)
        ensures
            r.base_dir_view() == base_path@,
    {
        DataStorage { base_dir: base_path.to_owned() }
    }

    /// The base directory.
    pub fn base_dir(&self) -> (r: &str)
        ensures
            r@ == self.base_dir_view(),
    {
        self.base_dir.as_str()
    }

    /// Where the data `name` of `date` is archived (used both to save and to
    /// load it).
    pub fn archive_path(&self, date: &str, name: &str) -> (r: ArchivePath)
        ensures
            (r.year@, r.month_day@) == archive_dirs(date@),
            r.file_name@ == archive_file_name(date@, name@),
    {
        let parts = split(date, '-');
        let ghost pv = parts.deep_view();
        let (year, month_day) = if parts.len() == 3 {
            let mut md = parts[1].clone();
            push_char(&mut md, '-');
            md.append(parts[2].as_str());
            assert(pv[0] == parts[0]@ && pv[1] == parts[1]@ && pv[2] == parts[2]@);
            (parts[0].clone(), md)
        } else {
            (String::from_str("unknown"), date.to_owned())
        };
        let mut file_name = date.to_owned();
        push_char(&mut file_name, '_');
        file_name.append(name);
        file_name.append(".json");
        ArchivePath { year, month_day, file_name }
    }
}

/// A date without underscores is recovered from the name of the file its
/// data is archived under: what `save_daily_data` writes, `list_dates` lists.
pub proof fn law_saved_date_is_listed(date: Seq<char>, name: Seq<char>)
    requires
        !date.contains('_'),
    ensures
        date_of_entry(archive_file_name(date, name)) == Some(date),
{
    reveal_strlit(".json");
    let f = archive_file_name(date, name);
    let n = f.len();
    assert(f.subrange(n - 5, n as int) =~= ".json"@);
    assert forall|j: int| 0 <= j < date.len() implies f[j] != '_' by {
        assert(f[j] == date[j]);
        if date[j] == '_' {
            assert(date.contains('_'));
        }
    }
    assert(f[date.len() as int] == '_');
    lemma_before_char_at(f, '_', date.len() as int);
    assert(f.take(date.len() as int) =~= date);
}


proof fn lemma_split_append_plain(a: Seq<char>, b: Seq<char>, c: char)
    requires
        !b.contains(c),
    ensures
        split_spec(a + b, c) == split_spec(a, c).update(
            split_spec(a, c).len() - 1,
            split_spec(a, c).last() + b,
        ),
    decreases b.len(),
{
    crate::text::lemma_split_nonempty(a, c);
    if b.len() == 0 {
        assert(a + b =~= a);
        assert(split_spec(a, c).last() + b =~= split_spec(a, c).last());
        assert(split_spec(a, c).update(split_spec(a, c).len() - 1, split_spec(a, c).last())
            =~= split_spec(a, c));
    } else {
        let b1 = b.drop_last();
        assert(!b1.contains(c)) by {
            if b1.contains(c) {
                let k = choose|k: int| 0 <= k < b1.len() && b1[k] == c;
                assert(b[k] == c);
            }
        }
        lemma_split_append_plain(a, b1, c);
        assert((a + b).drop_last() =~= a + b1);
        assert((a + b).last() == b.last());
        assert(b.last() != c) by {
            assert(b[b.len() - 1] == b.last());
        }
        let p = split_spec(a, c);
        let q = split_spec(a + b1, c);
        assert(q.len() == p.len());
        assert(q.last() == p.last() + b1);
        assert((p.last() + b1).push(b.last()) =~= p.last() + b);
        assert(split_spec(a + b, c) == q.update(q.len() - 1, q.last().push((a + b).last())));
        assert(split_spec(a + b, c) =~= p.update(p.len() - 1, p.last() + b));
    }
}

/// A date `YYYY-MM-DD` (three dash-free pieces) is archived under `YYYY` and
/// `MM-DD`.
pub proof fn law_iso_date_archive_dirs(year: Seq<char>, month: Seq<char>, day: Seq<char>)
    requires
        !year.contains('-'),
        !month.contains('-'),
        !day.contains('-'),
    ensures
        archive_dirs(year.push('-') + month.push('-') + day) == (year, month.push('-') + day),
{
    let e = Seq::<char>::empty();
    lemma_split_append_plain(e, year, '-');
    assert(e + year =~= year);
    assert(split_spec(e, '-') =~= seq![e]);
    assert(split_spec(year, '-') =~= seq![year]);
    let a1 = year.push('-');
    assert(a1.drop_last() =~= year);
    assert(split_spec(a1, '-') =~= seq![year, e]);
    lemma_split_append_plain(a1, month, '-');
    assert(split_spec(a1 + month, '-') =~= seq![year, month]);
    let a2 = (a1 + month).push('-');
    assert(a2.drop_last() =~= a1 + month);
    assert(split_spec(a2, '-') =~= seq![year, month, e]);
    lemma_split_append_plain(a2, day, '-');
    assert(a1 + month.push('-') + day =~= a2 + day);
    assert(split_spec(a2 + day, '-') =~= seq![year, month, day]);
}

/// The repositories of all archived days, in the order of the days.
pub open spec fn all_repositories(days: Seq<DailyData>, n: int) -> Seq<RepoView>
    decreases n,
{
    if n <= 0 {
        Seq::empty()
    } else {
        all_repositories(days, n - 1) + repos_view(days[n - 1].repositories@)
    }
}

/// The history of all archived days (those whose data could be read): their
/// repositories one day after the other, as `load_all_history` gathers them.
pub fn gather_history(days: &[DailyData]) -> (r: Vec<Repository>)
    ensures
        repos_view(r@) == all_repositories(days@, days.len() as int),
{
    let mut out: Vec<Repository> = Vec::new();
    let mut i: usize = 0;
    while i < days.len()
        invariant
            i <= days.len(),
            repos_view(out@) == all_repositories(days@, i as int),
        decreases days.len() - i,
    {
        let ghost before = out@;
        let mut more = clone_repos(days[i].repositories.as_slice());
        let ghost m = more@;
        out.append(&mut more);
        assert(out@ == before + m);
        assert(repos_view(out@) =~= repos_view(before) + repos_view(m));
        i = i + 1;
    }
    out
}
} // verus!

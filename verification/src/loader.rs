//! Loading migration statements: selecting migration files, ordering them
//! deterministically, and parsing each into statements.
//!
//! Files are ordered by their full path, so the loaded statement sequence
//! depends only on which files exist, never on the order a directory listing
//! happens to produce.

use vstd::prelude::*;

use crate::error::{Error, ErrorV};
use crate::parse::{parse_statement_texts, statement_texts};
use crate::text::{cmp_str, lemma_lex_cmp_eq, lemma_lex_cmp_flip, lemma_lex_le_trans, lex_cmp,
    lex_le, Cmp};
use vstd::multiset::Multiset;
use vstd::relations::{sorted_by, total_ordering};
use vstd::seq_lib::lemma_sorted_unique;

verus! {

broadcast use vstd::seq_lib::group_to_multiset_ensures, vstd::multiset::group_multiset_axioms;

/// One migration source: its full path and its text.
#[derive(Debug)]
pub struct MigrationFile {
    pub path: String,
    pub contents: String,
}

/// The mathematical shape of a [`MigrationFile`].
pub struct MigrationFileV {
    pub path: Seq<char>,
    pub contents: Seq<char>,
}

impl View for MigrationFile {
    type V = MigrationFileV;

    open spec fn view(&self) -> MigrationFileV {
        MigrationFileV { path: self.path@, contents: self.contents@ }
    }
}

/// One loaded migration statement, as its canonical text.
#[derive(Debug)]
pub struct MigrationStatement {
    pub text: String,
}

impl View for MigrationStatement {
    type V = Seq<char>;

    open spec fn view(&self) -> Seq<char> {
        self.text@
    }
}

/// The views of a sequence of migration files.
pub open spec fn view_files(v: Seq<MigrationFile>) -> Seq<MigrationFileV> {
    Seq::new(v.len(), |i: int| v[i]@)
}

/// The views of a sequence of migration statements.
pub open spec fn view_stmts(v: Seq<MigrationStatement>) -> Seq<Seq<char>> {
    Seq::new(v.len(), |i: int| v[i]@)
}

/// The order migration files are applied in: by path, and by contents where
/// two files carry the same path (a directory never yields that; the
/// tiebreak only keeps the order total).
pub open spec fn file_le(a: MigrationFileV, b: MigrationFileV) -> bool {
    if a.path != b.path {
        lex_cmp(a.path, b.path) == Cmp::Lt
    } else {
        lex_le(a.contents, b.contents)
    }
}

/// The file order as a relation value, for ordering lemmas.
pub open spec fn file_order() -> spec_fn(MigrationFileV, MigrationFileV) -> bool {
    |a: MigrationFileV, b: MigrationFileV| file_le(a, b)
}

/// The file order relates every pair one way or the other.
pub proof fn lemma_file_le_connected(a: MigrationFileV, b: MigrationFileV)
    ensures
        file_le(a, b) || file_le(b, a),
{
    lemma_lex_cmp_eq(a.path, b.path);
    lemma_lex_cmp_flip(a.path, b.path);
    if a.path == b.path {
        lemma_lex_cmp_flip(a.contents, b.contents);
    }
}

/// The file order is antisymmetric: two files each no later than the other
/// are the same file.
pub proof fn lemma_file_le_antisym(a: MigrationFileV, b: MigrationFileV)
    requires
        file_le(a, b),
        file_le(b, a),
    ensures
        a == b,
{
    lemma_lex_cmp_flip(a.path, b.path);
    if a.path == b.path {
        lemma_lex_cmp_flip(a.contents, b.contents);
        lemma_lex_cmp_eq(a.contents, b.contents);
    }
}

/// The file order is transitive.
pub proof fn lemma_file_le_trans(a: MigrationFileV, b: MigrationFileV, c: MigrationFileV)
    requires
        file_le(a, b),
        file_le(b, c),
    ensures
        file_le(a, c),
{
    lemma_lex_cmp_eq(a.path, b.path);
    lemma_lex_cmp_eq(b.path, c.path);
    lemma_lex_cmp_eq(a.path, c.path);
    if a.path == b.path && b.path == c.path {
        lemma_lex_le_trans(a.contents, b.contents, c.contents);
    } else if a.path == b.path || b.path == c.path {
    } else {
        lemma_lex_le_trans(a.path, b.path, c.path);
        if a.path == c.path {
            lemma_lex_cmp_flip(b.path, c.path);
        }
    }
}

/// The file order is a total ordering.
pub proof fn lemma_file_order_total()
    ensures
        total_ordering(file_order()),
{
    let leq = file_order();
    assert forall|a: MigrationFileV| #[trigger] leq(a, a) by {
        lemma_file_le_connected(a, a);
    }
    assert forall|a: MigrationFileV, b: MigrationFileV| #[trigger] leq(a, b) && #[trigger] leq(
        b,
        a,
    ) implies a == b by {
        lemma_file_le_antisym(a, b);
    }
    assert forall|a: MigrationFileV, b: MigrationFileV, c: MigrationFileV|
        #[trigger] leq(a, b) && #[trigger] leq(b, c) implies leq(a, c) by {
        lemma_file_le_trans(a, b, c);
    }
    assert forall|a: MigrationFileV, b: MigrationFileV| #[trigger] leq(a, b) || #[trigger] leq(
        b,
        a,
    ) by {
        lemma_file_le_connected(a, b);
    }
}

/// Decides the file order.
pub fn file_le_exec(a: &MigrationFile, b: &MigrationFile) -> (r: bool)
    ensures
        r == file_le(a@, b@),
{
    let c = cmp_str(a.path.as_str(), b.path.as_str());
    proof {
        lemma_lex_cmp_eq(a.path@, b.path@);
    }
    match c {
        Cmp::Lt => true,
        Cmp::Gt => false,
        Cmp::Eq => {
            let cc = cmp_str(a.contents.as_str(), b.contents.as_str());
            match cc {
                Cmp::Gt => false,
                _ => true,
            }
        },
    }
}

/// Sorts migration files into application order.
fn sort_files(files: Vec<MigrationFile>) -> (r: Vec<MigrationFile>)
    ensures
        sorted_by(view_files(r@), file_order()),
        view_files(r@).to_multiset() == view_files(files@).to_multiset(),
{
    let ghost input = view_files(files@);
    let mut rest = files;
    let mut out: Vec<MigrationFile> = Vec::new();
    proof {
        assert(view_files(out@) =~= Seq::<MigrationFileV>::empty());
        assert(view_files(out@).to_multiset().add(view_files(rest@).to_multiset())
            =~= input.to_multiset());
    }
    while rest.len() > 0
        invariant
            sorted_by(view_files(out@), file_order()),
            view_files(out@).to_multiset().add(view_files(rest@).to_multiset())
                == input.to_multiset(),
        decreases rest.len(),
    {
        let ghost prev_rest = view_files(rest@);
        let f = rest.remove(0);
        proof {
            assert(prev_rest[0] == f@);
            assert(view_files(rest@) =~= prev_rest.remove(0));
            vstd::seq_lib::to_multiset_remove(prev_rest, 0);
            assert(view_files(rest@).to_multiset() == prev_rest.to_multiset().remove(f@));
        }
        let n = out.len();
        let mut k: usize = 0;
        loop
            invariant
                k <= n,
                n == out@.len(),
                forall|j: int| 0 <= j < k ==> file_le(#[trigger] view_files(out@)[j], f@),
            ensures
                k <= n,
                forall|j: int| 0 <= j < k ==> file_le(#[trigger] view_files(out@)[j], f@),
                k < n ==> !file_le(view_files(out@)[k as int], f@),
            decreases n - k,
        {
            if k == n {
                break ;
            }
            let le = file_le_exec(&out[k], &f);
            proof {
                assert(view_files(out@)[k as int] == out@[k as int]@);
            }
            if !le {
                break ;
            }
            k = k + 1;
        }
        let ghost prev_out = view_files(out@);
        proof {
            if k < n {
                lemma_file_le_connected(prev_out[k as int], f@);
                assert(file_le(f@, prev_out[k as int]));
            }
        }
        out.insert(k, f);
        proof {
            let now = view_files(out@);
            let leq = file_order();
            assert(now =~= prev_out.insert(k as int, f@));
            let s1 = prev_out.subrange(0, k as int);
            let s2 = prev_out.subrange(k as int, prev_out.len() as int);
            assert(now =~= s1.push(f@) + s2);
            assert forall|x: int| 0 <= x < now.len() implies now[x] == (if x < k {
                prev_out[x]
            } else if x == k {
                f@
            } else {
                prev_out[x - 1]
            }) by {
                if x < k {
                    assert(now[x] == s1.push(f@)[x]);
                } else if x == k {
                    assert(now[x] == s1.push(f@)[x]);
                } else {
                    assert(now[x] == s2[x - k - 1]);
                }
            }
            assert forall|x: int, y: int| 0 <= x < y < now.len() implies #[trigger] leq(
                now[x],
                now[y],
            ) by {
                if y < k {
                    assert(leq(prev_out[x], prev_out[y]));
                } else if y == k {
                    assert(file_le(prev_out[x], f@));
                } else if x == k {
                    assert(file_le(f@, prev_out[k as int]));
                    if y - 1 > k {
                        assert(leq(prev_out[k as int], prev_out[y - 1]));
                        lemma_file_le_trans(f@, prev_out[k as int], prev_out[y - 1]);
                    }
                } else if x < k {
                    assert(x < y - 1);
                    assert(leq(prev_out[x], prev_out[y - 1]));
                } else {
                    assert(leq(prev_out[x - 1], prev_out[y - 1]));
                }
            }
            assert(sorted_by(now, leq));
            assert(prev_out.len() == n);
            assert(0 <= k as int <= prev_out.len());
            vstd::seq_lib::to_multiset_insert(prev_out, k as int, f@);
            assert(now.to_multiset() == prev_out.to_multiset().insert(f@));
            assert(prev_rest.contains(f@)) by {
                assert(prev_rest[0] == f@);
            }
            assert(prev_rest.to_multiset().contains(f@));
            assert(now.to_multiset().add(view_files(rest@).to_multiset()) =~= input.to_multiset());
        }
    }
    proof {
        assert(view_files(rest@).to_multiset() =~= Multiset::<MigrationFileV>::empty());
        assert(view_files(out@).to_multiset().add(Multiset::<MigrationFileV>::empty())
            =~= view_files(out@).to_multiset());
    }
    out
}

/// Whether a path names a migration source: its file name ends in the
/// migration extension, with a non-empty stem before it (a file named by
/// the bare extension has no extension).
pub open spec fn spec_is_migration_path(p: Seq<char>) -> bool {
    p.len() > 4 && p.subrange(p.len() - 4, p.len() as int) == seq!['.', 's', 'q', 'l']
        && p[p.len() - 5] != '/'
}

/// Decides whether a path names a migration source.
pub fn is_migration_source(path: &str) -> (r: bool)
    ensures
        r == spec_is_migration_path(path@),
{
    let len = path.unicode_len();
    if len <= 4 {
        return false;
    }
    let ghost tail = path@.subrange(len - 4, len as int);
    let ghost ext = seq!['.', 's', 'q', 'l'];
    let before = path.get_char(len - 5);
    let c0 = path.get_char(len - 4);
    let c1 = path.get_char(len - 3);
    let c2 = path.get_char(len - 2);
    let c3 = path.get_char(len - 1);
    proof {
        assert(tail.len() == 4);
        assert(tail[0] == c0 && tail[1] == c1 && tail[2] == c2 && tail[3] == c3);
        assert(ext[0] == '.' && ext[1] == 's' && ext[2] == 'q' && ext[3] == 'l');
    }
    if before == '/' {
        return false;
    }
    if c0 == '.' && c1 == 's' && c2 == 'q' && c3 == 'l' {
        proof {
            assert(tail =~= ext);
        }
        true
    } else {
        proof {
            assert(tail != ext);
        }
        false
    }
}

/// The migration sources among a file sequence, in order.
pub open spec fn spec_retained(files: Seq<MigrationFileV>) -> Seq<MigrationFileV>
    decreases files.len(),
{
    if files.len() == 0 {
        Seq::empty()
    } else {
        let rest = spec_retained(files.drop_first());
        if spec_is_migration_path(files[0].path) {
            seq![files[0]] + rest
        } else {
            rest
        }
    }
}

/// Keeps the migration sources of a file sequence, in order.
fn retain_migrations(files: Vec<MigrationFile>) -> (r: Vec<MigrationFile>)
    ensures
        view_files(r@) == spec_retained(view_files(files@)),
{
    let ghost input = view_files(files@);
    let mut v = files;
    let mut out: Vec<MigrationFile> = Vec::new();
    proof {
        assert(view_files(out@) + spec_retained(input) =~= spec_retained(input));
    }
    while v.len() > 0
        invariant
            view_files(out@) + spec_retained(view_files(v@)) == spec_retained(input),
        decreases v@.len(),
    {
        let ghost prev = view_files(v@);
        let ghost prev_out = view_files(out@);
        let f = v.remove(0);
        proof {
            assert(prev[0] == f@);
            assert(view_files(v@) =~= prev.drop_first());
        }
        if is_migration_source(f.path.as_str()) {
            out.push(f);
            proof {
                assert(view_files(out@) =~= prev_out.push(f@));
                assert(spec_retained(prev) == seq![f@] + spec_retained(prev.drop_first()));
                assert(prev_out.push(f@) + spec_retained(prev.drop_first()) =~= prev_out + (
                seq![f@] + spec_retained(prev.drop_first())));
            }
        }
    }
    proof {
        assert(view_files(v@).len() == 0);
        assert(spec_retained(view_files(v@)) =~= Seq::<MigrationFileV>::empty());
        assert(view_files(out@) + Seq::<MigrationFileV>::empty() =~= view_files(out@));
    }
    out
}

/// The statements of a file sequence: each file's parsed statement texts in
/// file order; an unparsable file fails the whole load, naming that file.
pub open spec fn spec_parse_all(files: Seq<MigrationFileV>) -> Result<Seq<Seq<char>>, ErrorV>
    decreases files.len(),
{
    if files.len() == 0 {
        Ok(Seq::empty())
    } else {
        match statement_texts(files[0].contents) {
            None => Err(ErrorV::ParseFailure { source: files[0].path }),
            Some(ts) => match spec_parse_all(files.drop_first()) {
                Err(e) => Err(e),
                Ok(rest) => Ok(ts + rest),
            },
        }
    }
}

/// A parsed prefix followed by the rest of a parse.
spec fn splice_texts(acc: Seq<Seq<char>>, rest: Result<Seq<Seq<char>>, ErrorV>) -> Result<
    Seq<Seq<char>>,
    ErrorV,
> {
    match rest {
        Ok(ts) => Ok(acc + ts),
        Err(e) => Err(e),
    }
}

/// The views of a sequence of strings.
spec fn view_texts(v: Seq<String>) -> Seq<Seq<char>> {
    Seq::new(v.len(), |i: int| v[i]@)
}

/// Parses every file into statements, in the given order.
fn parse_all(files: Vec<MigrationFile>) -> (r: Result<Vec<MigrationStatement>, Error>)
    ensures
        r matches Ok(v) ==> (spec_parse_all(view_files(files@)) matches Ok(sv) && view_stmts(v@)
            == sv),
        r matches Err(e) ==> (spec_parse_all(view_files(files@)) matches Err(ev) && e@ == ev),
{
    let ghost input = view_files(files@);
    let mut v = files;
    let mut out: Vec<MigrationStatement> = Vec::new();
    proof {
        match spec_parse_all(input) {
            Ok(all) => {
                assert(view_stmts(out@) + all =~= all);
            },
            Err(_) => {},
        }
    }
    while v.len() > 0
        invariant
            input == view_files(files@),
            spec_parse_all(input) == splice_texts(view_stmts(out@), spec_parse_all(view_files(v@))),
        decreases v@.len(),
    {
        let ghost prev = view_files(v@);
        let f = v.remove(0);
        proof {
            assert(prev[0] == f@);
            assert(view_files(v@) =~= prev.drop_first());
        }
        let texts = match parse_statement_texts(f.contents.as_str()) {
            None => {
                proof {
                    assert(spec_parse_all(prev) matches Err(e) && e == (ErrorV::ParseFailure {
                        source: f@.path,
                    }));
                }
                return Err(Error::ParseFailure { source: f.path });
            },
            Some(texts) => texts,
        };
        let ghost vtexts = statement_texts(f@.contents).unwrap();
        proof {
            assert(view_texts(texts@) =~= texts.deep_view());
            assert(view_texts(texts@) == vtexts);
        }
        let ghost prev_out = view_stmts(out@);
        let mut texts = texts;
        let ghost m = vtexts.len();
        while texts.len() > 0
            invariant
                m == vtexts.len(),
                texts@.len() <= m,
                view_texts(texts@) == vtexts.subrange((m - texts@.len()) as int, m as int),
                view_stmts(out@) == prev_out + vtexts.subrange(0, (m - texts@.len()) as int),
            decreases texts@.len(),
        {
            let ghost tprev = texts@;
            let ghost oprev = view_stmts(out@);
            let ghost done = (m - texts@.len()) as int;
            let t = texts.remove(0);
            proof {
                assert(view_texts(tprev)[0] == t@);
                assert(vtexts[done] == t@);
                assert(view_texts(texts@) =~= view_texts(tprev).drop_first());
                assert(view_texts(tprev).drop_first() =~= vtexts.subrange(done + 1, m as int));
            }
            out.push(MigrationStatement { text: t });
            proof {
                assert(view_stmts(out@) =~= oprev.push(t@));
                assert(oprev.push(t@) =~= prev_out + vtexts.subrange(0, done + 1));
            }
        }
        proof {
            assert(view_texts(texts@).len() == 0);
            assert(vtexts.subrange(0, m as int) =~= vtexts);
            assert(view_stmts(out@) == prev_out + vtexts);
            assert(spec_parse_all(prev) == (match spec_parse_all(prev.drop_first()) {
                Err(e) => Err(e),
                Ok(rest) => Ok(vtexts + rest),
            }));
            match spec_parse_all(prev.drop_first()) {
                Err(_) => {},
                Ok(rest) => {
                    assert(prev_out + (vtexts + rest) =~= (prev_out + vtexts) + rest);
                },
            }
        }
    }
    proof {
        assert(view_files(v@).len() == 0);
        match spec_parse_all(view_files(v@)) {
            Ok(e) => {
                assert(view_stmts(out@) + e =~= view_stmts(out@));
            },
            Err(_) => {},
        }
    }
    Ok(out)
}

/// What loading a set of migration files yields: the files that carry the
/// migration extension, in path order, each parsed into its statements and
/// concatenated; or the first failure.
pub open spec fn spec_load(files: Seq<MigrationFileV>) -> Result<Seq<Seq<char>>, ErrorV> {
    spec_parse_all(spec_retained(files.sort_by(file_order())))
}

/// Loads the migration statements of a set of files: selects the migration
/// sources, orders them by path, and parses each into statements, in order.
pub fn load_migrations(files: Vec<MigrationFile>) -> (r: Result<Vec<MigrationStatement>, Error>)
    ensures
        r matches Ok(v) ==> (spec_load(view_files(files@)) matches Ok(sv) && view_stmts(v@) == sv),
        r matches Err(e) ==> (spec_load(view_files(files@)) matches Err(ev) && e@ == ev),
{
    let ghost input = view_files(files@);
    let sorted = sort_files(files);
    proof {
        lemma_file_order_total();
        input.lemma_sort_by_ensures(file_order());
        lemma_sorted_unique(view_files(sorted@), input.sort_by(file_order()), file_order());
        assert(view_files(sorted@) == input.sort_by(file_order()));
    }
    let kept = retain_migrations(sorted);
    parse_all(kept)
}

/// Loading is deterministic: two file sets holding the same files — a
/// directory's entries, in whatever order a listing produced them — load to
/// the same statement sequence, or fail with the same error.
pub proof fn lemma_load_deterministic(a: Seq<MigrationFileV>, b: Seq<MigrationFileV>)
    requires
        a.to_multiset() == b.to_multiset(),
    ensures
        spec_load(a) == spec_load(b),
{
    lemma_file_order_total();
    a.lemma_sort_by_ensures(file_order());
    b.lemma_sort_by_ensures(file_order());
    lemma_sorted_unique(a.sort_by(file_order()), b.sort_by(file_order()), file_order());
    assert(a.sort_by(file_order()) == b.sort_by(file_order()));
}

} // verus!

use crate::tokens::{
    is_white_space, parse_i64_spec, parse_timestamp_list, split_commas_spec, token_spec,
    trim_end_spec, trim_spec, trim_start_spec, Token, TokenModel,
};
use vstd::prelude::*;

verus! {

/// One step of a run, in the order that its output comes.
#[derive(Clone, Debug, PartialEq, Eq)]
pub enum Job {
    /// Decode this value and print its views.
    Report(i64),
    /// Report that this piece is not an integer, and go on.
    Diagnose(String),
    /// Print the views of the current time.
    Now,
}

/// The mathematical form of a `Job`.
pub ghost enum JobModel {
    Report(i64),
    Diagnose(Seq<char>),
    Now,
}

impl View for Job {
    type V = JobModel;

    open spec fn view(&self) -> JobModel {
        match self {
            Job::Report(v) => JobModel::Report(*v),
            Job::Diagnose(s) => JobModel::Diagnose(s@),
            Job::Now => JobModel::Now,
        }
    }
}

/// The jobs that read tokens give: blanks give none.
pub open spec fn token_jobs(ts: Seq<TokenModel>) -> Seq<JobModel>
    decreases ts.len(),
{
    if ts.len() == 0 {
        Seq::empty()
    } else {
        let rest = token_jobs(ts.drop_last());
        match ts.last() {
            TokenModel::Blank => rest,
            TokenModel::Value(v) => rest.push(JobModel::Report(v)),
            TokenModel::Invalid(s) => rest.push(JobModel::Diagnose(s)),
        }
    }
}

/// The jobs of a sequence of comma-separated pieces.
pub open spec fn piece_jobs(pieces: Seq<Seq<char>>) -> Seq<JobModel> {
    token_jobs(pieces.map_values(|p| token_spec(p)))
}

/// The tokens of several comma-separated arguments, one after the other.
pub open spec fn args_tokens(args: Seq<Seq<char>>) -> Seq<TokenModel>
    decreases args.len(),
{
    if args.len() == 0 {
        Seq::empty()
    } else {
        args_tokens(args.drop_last()) + split_commas_spec(args.last()).map_values(
            |p| token_spec(p),
        )
    }
}

/// The jobs of a run: those of the timestamp arguments, if any, then the
/// current time if asked for.
pub open spec fn plan_spec(timestamps: Option<Seq<Seq<char>>>, now: bool) -> Seq<JobModel> {
    let batch = match timestamps {
        Some(args) => token_jobs(args_tokens(args)),
        None => Seq::empty(),
    };
    if now {
        batch.push(JobModel::Now)
    } else {
        batch
    }
}

pub fn plan(timestamps: &Option<Vec<String>>, now: bool) -> (r: Vec<Job>)
    ensures
        r@.map_values(|j: Job| j@) == plan_spec(
            match timestamps {
                Some(args) => Some(args@.map_values(|a: String| a@)),
                None => None,
            },
            now,
        ),
        timestamps is None && !now ==> r@.len() == 0,
{
    let mut jobs: Vec<Job> = Vec::new();
    match timestamps {
        Some(args) => {
            let ghost views = args@.map_values(|a: String| a@);
            let mut i: usize = 0;
            proof {
                assert(views.subrange(0, 0) =~= Seq::<Seq<char>>::empty());
            }
            while i < args.len()
                invariant
                    i <= args@.len(),
                    views == args@.map_values(|a: String| a@),
                    jobs@.map_values(|j: Job| j@) == token_jobs(
                        args_tokens(views.subrange(0, i as int)),
                    ),
                decreases args@.len() - i,
            {
                let toks = parse_timestamp_list(args[i].as_str());
                let ghost done = args_tokens(views.subrange(0, i as int));
                let ghost tv = toks@.map_values(|t: Token| t@);
                let mut j: usize = 0;
                proof {
                    assert(tv.subrange(0, 0) =~= Seq::<TokenModel>::empty());
                    assert(done + tv.subrange(0, 0) =~= done);
                }
                while j < toks.len()
                    invariant
                        j <= toks@.len(),
                        tv == toks@.map_values(|t: Token| t@),
                        jobs@.map_values(|j: Job| j@) == token_jobs(
                            done + tv.subrange(0, j as int),
                        ),
                    decreases toks@.len() - j,
                {
                    let ghost before = jobs@;
                    let ghost seen = done + tv.subrange(0, j as int);
                    proof {
                        assert((done + tv.subrange(0, j + 1)).drop_last() =~= seen);
                        assert((done + tv.subrange(0, j + 1)).last() == toks@[j as int]@);
                    }
                    match &toks[j] {
                        Token::Blank => {},
                        Token::Value(v) => {
                            jobs.push(Job::Report(*v));
                            proof {
                                assert(jobs@.map_values(|j: Job| j@) =~= before.map_values(
                                    |j: Job| j@,
                                ).push(JobModel::Report(*v)));
                            }
                        },
                        Token::Invalid(s) => {
                            jobs.push(Job::Diagnose(s.clone()));
                            proof {
                                assert(jobs@.map_values(|j: Job| j@) =~= before.map_values(
                                    |j: Job| j@,
                                ).push(JobModel::Diagnose(s@)));
                            }
                        },
                    }
                    j = j + 1;
                }
                proof {
                    let next = views.subrange(0, i + 1);
                    assert(next.drop_last() =~= views.subrange(0, i as int));
                    assert(next.last() == args@[i as int]@);
                    assert(tv.subrange(0, j as int) =~= tv);
                }
                i = i + 1;
            }
            proof {
                assert(views.subrange(0, i as int) =~= views);
            }
        },
        None => {},
    }
    if now {
        let ghost before = jobs@;
        jobs.push(Job::Now);
        proof {
            assert(jobs@.map_values(|j: Job| j@) =~= before.map_values(|j: Job| j@).push(
                JobModel::Now,
            ));
        }
    }
    jobs
}

/// The jobs of two token sequences one after the other are the jobs of each,
/// one after the other.
proof fn lemma_token_jobs_append(a: Seq<TokenModel>, b: Seq<TokenModel>)
    ensures
        token_jobs(a + b) == token_jobs(a) + token_jobs(b),
    decreases b.len(),
{
    if b.len() == 0 {
        assert(a + b =~= a);
        assert(token_jobs(a) + token_jobs(b) =~= token_jobs(a));
    } else {
        lemma_token_jobs_append(a, b.drop_last());
        assert((a + b).drop_last() =~= a + b.drop_last());
        assert((a + b).last() == b.last());
        let ja = token_jobs(a);
        let jb = token_jobs(b.drop_last());
        assert((ja + jb).push(JobModel::Now) =~= ja + jb.push(JobModel::Now));
        match b.last() {
            TokenModel::Blank => {},
            TokenModel::Value(v) => {
                assert((ja + jb).push(JobModel::Report(v)) =~= ja + jb.push(JobModel::Report(v)));
            },
            TokenModel::Invalid(t) => {
                assert((ja + jb).push(JobModel::Diagnose(t)) =~= ja + jb.push(
                    JobModel::Diagnose(t),
                ));
            },
        }
    }
}

proof fn lemma_white_space_trims_to_nothing(s: Seq<char>)
    requires
        forall|k: int| 0 <= k < s.len() ==> is_white_space(#[trigger] s[k]),
    ensures
        trim_start_spec(s).len() == 0,
        trim_spec(s).len() == 0,
    decreases s.len(),
{
    if s.len() > 0 {
        let t = s.drop_first();
        assert forall|k: int| 0 <= k < t.len() implies is_white_space(#[trigger] t[k]) by {
            assert(t[k] == s[k + 1]);
        }
        lemma_white_space_trims_to_nothing(t);
    }
    assert(trim_end_spec(trim_start_spec(s)) == trim_start_spec(s));
}

/// The jobs of `before`, one piece, then `after`: those of `before`, the
/// piece's own, then those of `after`.
proof fn lemma_piece_jobs_split(before: Seq<Seq<char>>, piece: Seq<char>, after: Seq<Seq<char>>)
    ensures
        piece_jobs(before + seq![piece] + after) == piece_jobs(before) + token_jobs(
            seq![token_spec(piece)],
        ) + piece_jobs(after),
{
    let f = |p: Seq<char>| token_spec(p);
    let all = before + seq![piece] + after;
    assert(all.map_values(f) =~= before.map_values(f) + seq![token_spec(piece)]
        + after.map_values(f));
    lemma_token_jobs_append(before.map_values(f), seq![token_spec(piece)]);
    lemma_token_jobs_append(before.map_values(f) + seq![token_spec(piece)], after.map_values(f));
}

/// A piece of white space only, wherever it stands in a list, gives no job and
/// leaves the jobs of the other pieces as they are.
pub proof fn lemma_blank_piece_dropped(
    before: Seq<Seq<char>>,
    blank: Seq<char>,
    after: Seq<Seq<char>>,
)
    requires
        forall|k: int| 0 <= k < blank.len() ==> is_white_space(#[trigger] blank[k]),
    ensures
        piece_jobs(before + seq![blank] + after) == piece_jobs(before) + piece_jobs(after),
{
    lemma_white_space_trims_to_nothing(blank);
    lemma_piece_jobs_split(before, blank, after);
    let one = seq![token_spec(blank)];
    assert(one.drop_last() =~= Seq::<TokenModel>::empty());
    assert(token_spec(blank) == TokenModel::Blank);
    assert(one.last() == TokenModel::Blank);
    assert(token_jobs(one.drop_last()) =~= Seq::<JobModel>::empty());
    assert(token_jobs(one) =~= Seq::<JobModel>::empty());
    assert(piece_jobs(before) + token_jobs(one) =~= piece_jobs(before));
}

/// A piece that is not blank and does not read as an `i64` gives exactly one
/// diagnostic naming it, in its place; the pieces before and after it give the
/// jobs they give on their own.
pub proof fn lemma_invalid_piece_diagnosed(
    before: Seq<Seq<char>>,
    bad: Seq<char>,
    after: Seq<Seq<char>>,
)
    requires
        trim_spec(bad).len() > 0,
        parse_i64_spec(trim_spec(bad)) is None,
    ensures
        piece_jobs(before + seq![bad] + after) == piece_jobs(before) + seq![
            JobModel::Diagnose(bad),
        ] + piece_jobs(after),
{
    lemma_piece_jobs_split(before, bad, after);
    let one = seq![token_spec(bad)];
    assert(one.drop_last() =~= Seq::<TokenModel>::empty());
    assert(token_spec(bad) == TokenModel::Invalid(bad));
    assert(one.last() == TokenModel::Invalid(bad));
    assert(token_jobs(one.drop_last()) =~= Seq::<JobModel>::empty());
    assert(token_jobs(one) =~= seq![JobModel::Diagnose(bad)]);
}

} // verus!

//! The verified core of the Weasel genetic algorithm: fitness scoring,
//! random string generation, mutation, and the per-generation selection step.
use vstd::prelude::*;

use crate::rng::{choose_from, new_rng, roll_percent};
use crate::WeaselArgs;

verus! {

/// The closed set of failures a run can end with: an invalid configuration,
/// detected before the core runs, or an empty character set at the moment a
/// random character must be drawn.
#[derive(Clone, Copy, Debug, PartialEq, Eq, Structural)]
pub enum WeaselError {
    /// Mutation rate outside [1, 100], or fewer than one trial per generation.
    Config,
    /// The character set was empty when a random character had to be chosen.
    Sampling,
}

/// Relies on String::push: appends the character to the end of the string.
#[verifier::external_body]
fn push_char(s: &mut String, c: char)
    ensures
        final(s)@ == old(s)@.push(c),
{
    s.push(c);
}

/// Number of positions `i < n` at which `a[i] == b[i]`.
pub open spec fn match_count_upto(a: Seq<char>, b: Seq<char>, n: int) -> nat
    decreases n,
{
    if n <= 0 {
        0
    } else {
        match_count_upto(a, b, n - 1) + if a[n - 1] == b[n - 1] {
            1nat
        } else {
            0nat
        }
    }
}

/// The fitness score of two character sequences: the number of positions at
/// which they hold the same character, up to the length of the shorter one.
pub open spec fn match_count(a: Seq<char>, b: Seq<char>) -> nat {
    match_count_upto(a, b, if a.len() <= b.len() { a.len() as int } else { b.len() as int })
}

/// Compare two strings char by char and count how many are the same, up to
/// the length of the shorter string.
pub fn check_equal_chars(string_a: &str, string_b: &str) -> (count: usize)
    ensures
        count == match_count(string_a@, string_b@),
{
    let len_a = string_a.unicode_len();
    let len_b = string_b.unicode_len();
    let len: usize = if len_a <= len_b {
        len_a
    } else {
        len_b
    };
    let mut count: usize = 0;
    let mut i: usize = 0;
    while i < len
        invariant
            len == (if string_a@.len() <= string_b@.len() {
                string_a@.len()
            } else {
                string_b@.len()
            }),
            i <= len,
            count == match_count_upto(string_a@, string_b@, i as int),
            count <= i,
        decreases len - i,
    {
        if string_a.get_char(i) == string_b.get_char(i) {
            count = count + 1;
        }
        i = i + 1;
    }
    count
}

/// Generate a string of `str_len` characters, each drawn independently at
/// random from `char_set`. Fails with a sampling error exactly when at least
/// one character must be drawn and the character set is empty.
pub fn gen_rand_string(str_len: usize, char_set: &str) -> (r: Result<String, WeaselError>)
    ensures
        r is Ok <==> (str_len == 0 || char_set@.len() > 0),
        r matches Ok(s) ==> s@.len() == str_len && (forall|j: int|
            0 <= j < str_len ==> char_set@.contains(#[trigger] s@[j])),
        r matches Err(e) ==> e == WeaselError::Sampling,
{
    let mut rng = new_rng();
    let mut rand_string = String::new();
    let mut i: usize = 0;
    while i < str_len
        invariant
            i <= str_len,
            rand_string@.len() == i,
            forall|j: int| 0 <= j < i ==> char_set@.contains(#[trigger] rand_string@[j]),
            i > 0 ==> char_set@.len() > 0,
        decreases str_len - i,
    {
        match choose_from(&mut rng, char_set) {
            Some(c) => {
                push_char(&mut rand_string, c);
            },
            None => {
                return Err(WeaselError::Sampling);
            },
        }
        i = i + 1;
    }
    Ok(rand_string)
}

/// Produce a string of the same length as `base_str` where each character,
/// independently, is replaced by a random character from `char_set` when a
/// fresh draw from [0, 100] is at most `mutation_rate`, and copied unchanged
/// otherwise. Fails with a sampling error exactly when a replacement is due
/// and the character set is empty; with a rate of 100 every position is due.
pub fn get_mutated_string(mutation_rate: u8, base_str: &str, char_set: &str) -> (r: Result<
    String,
    WeaselError,
>)
    requires
        1 <= mutation_rate <= 100,
    ensures
        char_set@.len() > 0 ==> r is Ok,
        r matches Ok(s) ==> s@.len() == base_str@.len() && (forall|j: int|
            0 <= j < s@.len() ==> (#[trigger] s@[j]) == base_str@[j] || char_set@.contains(s@[j])),
        mutation_rate == 100 ==> (r matches Ok(s) ==> forall|j: int|
            0 <= j < s@.len() ==> char_set@.contains(#[trigger] s@[j])),
        r matches Err(e) ==> e == WeaselError::Sampling && char_set@.len() == 0,
        char_set@.len() == 0 && mutation_rate == 100 && base_str@.len() > 0 ==> r is Err,
        base_str@.len() == 0 ==> r is Ok,
{
    let mut rng = new_rng();
    let mut mutated_str = String::new();
    let base_len = base_str.unicode_len();
    let mut i: usize = 0;
    while i < base_len
        invariant
            i <= base_len,
            base_len == base_str@.len(),
            1 <= mutation_rate <= 100,
            mutated_str@.len() == i,
            forall|j: int|
                0 <= j < i ==> (#[trigger] mutated_str@[j]) == base_str@[j] || char_set@.contains(
                    mutated_str@[j],
                ),
            mutation_rate == 100 ==> forall|j: int|
                0 <= j < i ==> char_set@.contains(#[trigger] mutated_str@[j]),
            mutation_rate == 100 && i > 0 ==> char_set@.len() > 0,
        decreases base_len - i,
    {
        let mut_roll = roll_percent(&mut rng);
        if mut_roll <= mutation_rate {
            match choose_from(&mut rng, char_set) {
                Some(c) => {
                    push_char(&mut mutated_str, c);
                },
                None => {
                    return Err(WeaselError::Sampling);
                },
            }
        } else {
            push_char(&mut mutated_str, base_str.get_char(i));
        }
        i = i + 1;
    }
    Ok(mutated_str)
}

proof fn lemma_upto_le(a: Seq<char>, b: Seq<char>, n: int)
    requires
        0 <= n,
    ensures
        match_count_upto(a, b, n) <= n,
    decreases n,
{
    if n > 0 {
        lemma_upto_le(a, b, n - 1);
    }
}

proof fn lemma_upto_sym(a: Seq<char>, b: Seq<char>, n: int)
    ensures
        match_count_upto(a, b, n) == match_count_upto(b, a, n),
    decreases n,
{
    if n > 0 {
        lemma_upto_sym(a, b, n - 1);
    }
}

proof fn lemma_upto_refl(a: Seq<char>, n: int)
    requires
        0 <= n,
    ensures
        match_count_upto(a, a, n) == n,
    decreases n,
{
    if n > 0 {
        lemma_upto_refl(a, n - 1);
    }
}

proof fn lemma_upto_full(a: Seq<char>, b: Seq<char>, n: int)
    requires
        0 <= n,
        match_count_upto(a, b, n) == n,
    ensures
        forall|i: int| 0 <= i < n ==> a[i] == b[i],
    decreases n,
{
    if n > 0 {
        lemma_upto_le(a, b, n - 1);
        lemma_upto_full(a, b, n - 1);
    }
}

/// The fitness score is symmetric in its two arguments.
pub proof fn lemma_scorer_symmetric(a: Seq<char>, b: Seq<char>)
    ensures
        match_count(a, b) == match_count(b, a),
{
    lemma_upto_sym(a, b, if a.len() <= b.len() {
        a.len() as int
    } else {
        b.len() as int
    });
}

/// Two sequences of equal length score as high as their length exactly when
/// they are equal: a candidate with a full score is the target phrase.
pub proof fn lemma_full_score_is_target(a: Seq<char>, b: Seq<char>)
    requires
        a.len() == b.len(),
    ensures
        match_count(a, b) == a.len() <==> a == b,
{
    if match_count(a, b) == a.len() {
        lemma_upto_full(a, b, a.len() as int);
        assert(a =~= b);
    }
    if a == b {
        lemma_upto_refl(a, a.len() as int);
    }
}

/// A full-length string guess paired with its fitness score against the
/// target phrase.
#[derive(Debug)]
pub struct Candidate {
    /// The guessed string, of the target phrase's length.
    pub text: String,
    /// How many positions of `text` match the target phrase.
    pub score: usize,
}

/// A candidate is well formed for a phrase when its text has the phrase's
/// length and its score is the fitness score of its text against the phrase.
pub open spec fn candidate_wf(c: Candidate, phrase: Seq<char>) -> bool {
    &&& c.text@.len() == phrase.len()
    &&& c.score == match_count(c.text@, phrase)
}

/// The selection step's tie policy: a trial replaces the best candidate so
/// far only when its score is strictly greater, so the first-discovered
/// candidate of the best score in a batch wins.
pub open spec fn select_best(best: Candidate, trial: Candidate) -> Candidate {
    if trial.score > best.score {
        trial
    } else {
        best
    }
}

/// Keep the better of the best candidate so far and a new trial, preferring
/// the earlier one on ties.
pub fn select_candidate(best: Candidate, trial: Candidate) -> (r: Candidate)
    ensures
        r == select_best(best, trial),
{
    if trial.score > best.score {
        trial
    } else {
        best
    }
}

/// If a trial reproduces the target phrase exactly, the selection step keeps
/// a candidate whose text is the target phrase.
pub proof fn lemma_target_hit_selected(best: Candidate, trial: Candidate, phrase: Seq<char>)
    requires
        candidate_wf(best, phrase),
        candidate_wf(trial, phrase),
        trial.text@ == phrase,
    ensures
        select_best(best, trial).text@ == phrase,
{
    lemma_upto_refl(phrase, phrase.len() as int);
    if !(trial.score > best.score) {
        lemma_upto_le(best.text@, phrase, phrase.len() as int);
        lemma_full_score_is_target(best.text@, phrase);
    }
}

/// With a single-character set, a string whose characters all come from the
/// set is that character repeated: a mutation with rate 100 over a set {x}
/// replaces the whole base string by repetitions of x.
pub proof fn lemma_single_char_full_mutation(s: Seq<char>, char_set: Seq<char>)
    requires
        char_set.len() == 1,
        forall|j: int| 0 <= j < s.len() ==> char_set.contains(#[trigger] s[j]),
    ensures
        forall|j: int| 0 <= j < s.len() ==> #[trigger] s[j] == char_set[0],
{
}

impl WeaselError {
    /// A line of text describing the failure, for reporting on standard
    /// error.
    pub fn message(&self) -> (m: String)
        ensures
            *self == WeaselError::Config ==> m@ == "Invalid configuration"@,
            *self == WeaselError::Sampling ==> m@
                == "Couldn't pick character from the empty char set"@,
    {
        match self {
            WeaselError::Config => "Invalid configuration".to_owned(),
            WeaselError::Sampling => "Couldn't pick character from the empty char set".to_owned(),
        }
    }
}

/// Check the configuration: the mutation rate must lie in [1, 100] and at
/// least one trial per generation is required.
pub fn validate_args(args: &WeaselArgs) -> (r: Result<(), WeaselError>)
    ensures
        r is Ok <==> (1 <= args.mutation_rate <= 100 && args.iterations >= 1),
        r matches Err(e) ==> e == WeaselError::Config,
{
    if args.mutation_rate > 100 || args.mutation_rate < 1 {
        Err(WeaselError::Config)
    } else if args.iterations < 1 {
        Err(WeaselError::Config)
    } else {
        Ok(())
    }
}

/// Produce the starting candidate: a random string of the phrase's length
/// drawn from the character set, scored against the phrase.
pub fn init_candidate(phrase: &str, char_set: &str) -> (r: Result<Candidate, WeaselError>)
    ensures
        r is Ok <==> (phrase@.len() == 0 || char_set@.len() > 0),
        r matches Ok(c) ==> candidate_wf(c, phrase@),
        r matches Ok(c) ==> forall|j: int|
            0 <= j < c.text@.len() ==> char_set@.contains(#[trigger] c.text@[j]),
        r matches Err(e) ==> e == WeaselError::Sampling,
{
    let len = phrase.unicode_len();
    let text = match gen_rand_string(len, char_set) {
        Ok(t) => t,
        Err(e) => {
            return Err(e);
        },
    };
    let score = check_equal_chars(text.as_str(), phrase);
    Ok(Candidate { text, score })
}

/// Run one generation: produce `args.iterations` mutations of the previous
/// best candidate, score each against the phrase, and keep the best, adopting
/// a trial only on a strictly greater score. The result's score never falls
/// below the previous best's; its text is the previous best's unchanged or a
/// strict improvement whose characters each come from the previous best or
/// the character set; and its score is full exactly when the text is the
/// phrase.
pub fn run_generation(args: &WeaselArgs, prev_best: &Candidate) -> (r: Result<
    Candidate,
    WeaselError,
>)
    requires
        1 <= args.mutation_rate <= 100,
        candidate_wf(*prev_best, args.phrase@),
    ensures
        args.char_set@.len() > 0 ==> r is Ok,
        r matches Ok(c) ==> candidate_wf(c, args.phrase@),
        r matches Ok(c) ==> c.score >= prev_best.score,
        r matches Ok(c) ==> (c.text@ == prev_best.text@ || c.score > prev_best.score),
        r matches Ok(c) ==> forall|j: int|
            0 <= j < c.text@.len() ==> (#[trigger] c.text@[j]) == prev_best.text@[j]
                || args.char_set@.contains(c.text@[j]),
        r matches Ok(c) ==> (c.text@ == args.phrase@ <==> c.score == args.phrase@.len()),
        r matches Err(e) ==> e == WeaselError::Sampling && args.char_set@.len() == 0,
{
    let mut cur_best = Candidate { text: prev_best.text.clone(), score: prev_best.score };
    let mut k: u32 = 0;
    while k < args.iterations
        invariant
            k <= args.iterations,
            1 <= args.mutation_rate <= 100,
            candidate_wf(*prev_best, args.phrase@),
            candidate_wf(cur_best, args.phrase@),
            cur_best.score >= prev_best.score,
            cur_best.text@ == prev_best.text@ || cur_best.score > prev_best.score,
            forall|j: int|
                0 <= j < cur_best.text@.len() ==> (#[trigger] cur_best.text@[j])
                    == prev_best.text@[j] || args.char_set@.contains(cur_best.text@[j]),
        decreases args.iterations - k,
    {
        let cur_str = match get_mutated_string(
            args.mutation_rate,
            prev_best.text.as_str(),
            args.char_set.as_str(),
        ) {
            Ok(s) => s,
            Err(e) => {
                return Err(e);
            },
        };
        let cur_score = check_equal_chars(cur_str.as_str(), args.phrase.as_str());
        cur_best = select_candidate(cur_best, Candidate { text: cur_str, score: cur_score });
        k = k + 1;
    }
    proof {
        lemma_full_score_is_target(cur_best.text@, args.phrase@);
    }
    Ok(cur_best)
}

/// A run has converged when the candidate's text equals the target phrase
/// exactly.
pub fn is_converged(cand: &Candidate, phrase: &str) -> (r: bool)
    ensures
        r == (cand.text@ == phrase@),
{
    let len_c = cand.text.as_str().unicode_len();
    let len_p = phrase.unicode_len();
    if len_c != len_p {
        return false;
    }
    let mut i: usize = 0;
    while i < len_p
        invariant
            len_p == phrase@.len(),
            len_c == cand.text@.len(),
            len_c == len_p,
            i <= len_p,
            forall|j: int| 0 <= j < i ==> cand.text@[j] == phrase@[j],
        decreases len_p - i,
    {
        if cand.text.as_str().get_char(i) != phrase.get_char(i) {
            return false;
        }
        i = i + 1;
    }
    proof {
        assert(cand.text@ =~= phrase@);
    }
    true
}

} // verus!

//! Plate solving through an outside script.

use crate::json::{
    field_views, json_of, number_field, parse_json, read_number, read_text, read_true, text_field,
    true_field, JsonField, JsonView,
};
use crate::reals::{is_real, text_writes_real};
use crate::text::{concat2, concat3, texts, trim, trimmed_text};
use vstd::prelude::*;

verus! {

/// What the solver found. Numbers are text.
#[derive(Debug)]
pub enum Solution {
    /// The picture has no solution, for this reason.
    Unsolved { error: String },
    /// The center of the picture in degrees, and the scale in arcseconds per
    /// pixel and the certainty where they are told.
    Solved { ra_deg: String, dec_deg: String, scale: Option<String>, logodds: Option<String> },
}

/// What the solver found, with its texts.
pub enum SolutionView {
    Unsolved { error: Seq<char> },
    Solved {
        ra_deg: Seq<char>,
        dec_deg: Seq<char>,
        scale: Option<Seq<char>>,
        logodds: Option<Seq<char>>,
    },
}

/// The text of an optional string.
pub open spec fn opt(s: Option<String>) -> Option<Seq<char>> {
    match s {
        Some(t) => Some(t@),
        None => None,
    }
}

impl View for Solution {
    type V = SolutionView;

    open spec fn view(&self) -> SolutionView {
        match *self {
            Solution::Unsolved { error } => SolutionView::Unsolved { error: error@ },
            Solution::Solved { ra_deg, dec_deg, scale, logodds } => SolutionView::Solved {
                ra_deg: ra_deg@,
                dec_deg: dec_deg@,
                scale: opt(scale),
                logodds: opt(logodds),
            },
        }
    }
}

/// What the fields of the solver's output say.
pub open spec fn solution_of(fields: Seq<(Seq<char>, JsonView)>) -> Result<
    SolutionView,
    Seq<char>,
> {
    if !true_field(fields, "success"@) {
        Ok(
            SolutionView::Unsolved {
                error: match text_field(fields, "error"@) {
                    Some(e) => e,
                    None => "unknown error"@,
                },
            },
        )
    } else {
        match (number_field(fields, "ra_deg"@), number_field(fields, "dec_deg"@)) {
            (None, _) => Err("missing ra_deg in solver output"@),
            (_, None) => Err("missing dec_deg in solver output"@),
            (Some(ra), Some(dec)) => Ok(
                SolutionView::Solved {
                    ra_deg: ra,
                    dec_deg: dec,
                    scale: number_field(fields, "scale_arcsec_per_pixel"@),
                    logodds: number_field(fields, "logodds"@),
                },
            ),
        }
    }
}

/// What the fields of the solver's output say.
pub fn read_solution(fields: &Vec<JsonField>) -> (r: Result<Solution, String>)
    ensures
        match r {
            Ok(s) => solution_of(field_views(fields@)) == Ok::<SolutionView, Seq<char>>(s@),
            Err(e) => solution_of(field_views(fields@)) == Err::<SolutionView, Seq<char>>(e@),
        },
{
    if !read_true(fields, "success") {
        let error = match read_text(fields, "error") {
            Some(e) => e,
            None => "unknown error".to_owned(),
        };
        return Ok(Solution::Unsolved { error });
    }
    let ra_deg = match read_number(fields, "ra_deg") {
        Some(v) => v,
        None => return Err("missing ra_deg in solver output".to_owned()),
    };
    let dec_deg = match read_number(fields, "dec_deg") {
        Some(v) => v,
        None => return Err("missing dec_deg in solver output".to_owned()),
    };
    let scale = read_number(fields, "scale_arcsec_per_pixel");
    let logodds = read_number(fields, "logodds");
    Ok(Solution::Solved { ra_deg, dec_deg, scale, logodds })
}

/// How the solver ended.
#[derive(Debug)]
pub struct SolverRun {
    pub success: bool,
    /// The exit status, as it is shown.
    pub status: String,
    pub stdout: String,
    pub stderr: String,
}

/// What a run of the solver means.
pub open spec fn run_result(run: SolverRun) -> Result<SolutionView, Seq<char>> {
    if !run.success {
        Err("raw_tools.py exited with status "@ + run.status@ + ": "@ + run.stderr@)
    } else {
        let out = trim(run.stdout@);
        match json_of(out) {
            Ok(fields) => solution_of(fields),
            Err(e) => Err("Failed to parse solver JSON output `"@ + out + "`: "@ + e),
        }
    }
}

/// What a run of the solver means.
pub fn solve_with_astrometry(run: &SolverRun) -> (r: Result<Solution, String>)
    ensures
        match r {
            Ok(s) => run_result(*run) == Ok::<SolutionView, Seq<char>>(s@),
            Err(e) => run_result(*run) == Err::<SolutionView, Seq<char>>(e@),
        },
{
    if !run.success {
        let mut text = concat3("raw_tools.py exited with status ", run.status.as_str(), ": ");
        text.append(run.stderr.as_str());
        return Err(text);
    }
    let out = trimmed_text(run.stdout.as_str());
    match parse_json(out.as_str()) {
        Ok(fields) => read_solution(&fields),
        Err(e) => {
            let mut text = concat3(
                "Failed to parse solver JSON output `",
                out.as_str(),
                "`: ",
            );
            text.append(e.as_str());
            Err(text)
        },
    }
}

/// The arguments of the solver behind the name of the script.
pub fn solve_arguments(
    image: &str,
    ra_deg: &str,
    dec_deg: &str,
    scale_low: &str,
    scale_high: &str,
    radius_deg: &str,
) -> (r: Vec<String>)
    ensures
        texts(r@) == seq![
            "solve"@,
            image@,
            ra_deg@,
            dec_deg@,
            scale_low@,
            scale_high@,
            radius_deg@,
        ],
{
    let mut v: Vec<String> = Vec::new();
    v.push("solve".to_owned());
    v.push(image.to_owned());
    v.push(ra_deg.to_owned());
    v.push(dec_deg.to_owned());
    v.push(scale_low.to_owned());
    v.push(scale_high.to_owned());
    v.push(radius_deg.to_owned());
    assert(texts(v@) =~= seq![
        "solve"@,
        image@,
        ra_deg@,
        dec_deg@,
        scale_low@,
        scale_high@,
        radius_deg@,
    ]);
    v
}

// ---------------------------------------------------------------------------
// Conversion of raw pictures
// ---------------------------------------------------------------------------

/// The factor that the converter left beside the picture, as text: sensor
/// width over picture width; one where it is missing.
pub open spec fn scale_factor(sidecar: Option<Seq<char>>) -> Seq<char> {
    match sidecar {
        Some(s) => if is_real(trim(s)) {
            trim(s)
        } else {
            "1"@
        },
        None => "1"@,
    }
}

/// What became of a conversion, given how the converter ended and what it left
/// beside the picture.
pub fn raw_to_jpeg_fast(success: bool, stderr: &str, sidecar: Option<&str>) -> (r: Result<
    String,
    String,
>)
    ensures
        match r {
            Ok(factor) => success && factor@ == scale_factor(
                match sidecar {
                    Some(s) => Some(s@),
                    None => None,
                },
            ),
            Err(e) => !success && e@ == "snap_jpeg failed: "@ + stderr@,
        },
{
    if !success {
        return Err(concat2("snap_jpeg failed: ", stderr));
    }
    match sidecar {
        Some(s) => {
            let t = trimmed_text(s);
            if text_writes_real(t.as_str()) {
                Ok(t)
            } else {
                Ok("1".to_owned())
            }
        },
        None => Ok("1".to_owned()),
    }
}

/// The name of the file that the converter leaves beside the picture.
pub fn sidecar_name(jpeg: &str) -> (r: String)
    ensures
        r@ == jpeg@ + ".scale_factor"@,
{
    concat2(jpeg, ".scale_factor")
}

// ---------------------------------------------------------------------------
// Finding the script
// ---------------------------------------------------------------------------

/// A place where the script may be, and whether it is there.
#[derive(Debug)]
pub struct Place {
    pub path: String,
    pub exists: bool,
}

/// The first place of the list where the script is.
pub open spec fn first_place(places: Seq<Place>) -> Option<Seq<char>>
    decreases places.len(),
{
    if places.len() == 0 {
        None
    } else if places[0].exists {
        Some(places[0].path@)
    } else {
        first_place(places.skip(1))
    }
}

/// The place of the script: the one that the environment names, one of the
/// three directories above the program, or the current directory.
pub open spec fn script_place(named: Option<Place>, above: Seq<Place>) -> Seq<char> {
    let count = if above.len() < 3 {
        above.len() as int
    } else {
        3
    };
    let near = match first_place(above.take(count)) {
        Some(p) => p,
        None => "scripts/raw_tools.py"@,
    };
    match named {
        Some(p) => if p.exists {
            p.path@
        } else {
            near
        },
        None => near,
    }
}

/// The place of the script, given the places to look at in order: the one that
/// the environment names, and those in the directories above the program.
pub fn find_raw_tools(named: Option<&Place>, above: &Vec<Place>) -> (r: String)
    ensures
        r@ == script_place(
            match named {
                Some(p) => Some(*p),
                None => None,
            },
            above@,
        ),
{
    if let Some(p) = named {
        if p.exists {
            return p.path.clone();
        }
    }
    let n: usize = if above.len() < 3 {
        above.len()
    } else {
        3
    };
    let ghost first = above@.take(n as int);
    let mut i: usize = 0;
    assert(first.skip(0) =~= first);
    while i < n
        invariant
            i <= n <= above@.len(),
            n == if above@.len() < 3 {
                above@.len() as int
            } else {
                3
            },
            named matches Some(p) ==> !p.exists,
            first == above@.take(n as int),
            first_place(first) == first_place(first.skip(i as int)),
        decreases n - i,
    {
        assert(first.skip(i as int)[0] == above@[i as int]);
        assert(first.skip(i as int).skip(1) =~= first.skip(i + 1));
        if above[i].exists {
            assert(first_place(first) == Some(above@[i as int].path@));
            return above[i].path.clone();
        }
        i = i + 1;
    }
    "scripts/raw_tools.py".to_owned()
}

// ---------------------------------------------------------------------------
// Laws
// ---------------------------------------------------------------------------

/// A position is told only where the solver claims success and tells both
/// coordinates.
pub proof fn law_solution_needs_success(fields: Seq<(Seq<char>, JsonView)>)
    ensures
        (solution_of(fields) matches Ok(s) && s is Solved) <==> true_field(fields, "success"@)
            && number_field(fields, "ra_deg"@) is Some && number_field(fields, "dec_deg"@) is Some,
{
}

/// A solver that fails never yields a position, whatever it has printed.
pub proof fn law_failed_run_has_no_solution(run: SolverRun)
    requires
        !run.success,
    ensures
        run_result(run) is Err,
{
}

/// What the output of the solver says: with success and both coordinates it is
/// their position, with what is told of the scale and the certainty; without
/// success it is the reason, and where no reason is told, that it is not known.
pub proof fn law_what_the_output_says(fields: Seq<(Seq<char>, JsonView)>)
    ensures
        ({
            let good = true_field(fields, "success"@);
            let ra = number_field(fields, "ra_deg"@);
            let dec = number_field(fields, "dec_deg"@);
            let said = solution_of(fields);
            &&& good && ra is Some && dec is Some ==> said == Ok::<SolutionView, Seq<char>>(
                SolutionView::Solved {
                    ra_deg: ra->0,
                    dec_deg: dec->0,
                    scale: number_field(fields, "scale_arcsec_per_pixel"@),
                    logodds: number_field(fields, "logodds"@),
                },
            )
            &&& good && ra is None ==> said == Err::<SolutionView, Seq<char>>(
                "missing ra_deg in solver output"@,
            )
            &&& good && ra is Some && dec is None ==> said == Err::<SolutionView, Seq<char>>(
                "missing dec_deg in solver output"@,
            )
            &&& !good && text_field(fields, "error"@) is Some ==> said == Ok::<
                SolutionView,
                Seq<char>,
            >(SolutionView::Unsolved { error: text_field(fields, "error"@)->0 })
            &&& !good && text_field(fields, "error"@) is None ==> said == Ok::<
                SolutionView,
                Seq<char>,
            >(SolutionView::Unsolved { error: "unknown error"@ })
        }),
{
}

/// What a run of the solver means: the status and the errors of one that failed,
/// and what the output of any other says, without white space around it.
pub proof fn law_what_a_run_means(run: SolverRun)
    ensures
        !run.success ==> run_result(run) == Err::<SolutionView, Seq<char>>(
            "raw_tools.py exited with status "@ + run.status@ + ": "@ + run.stderr@,
        ),
        run.success ==> match json_of(trim(run.stdout@)) {
            Ok(fields) => run_result(run) == solution_of(fields),
            Err(e) => run_result(run) == Err::<SolutionView, Seq<char>>(
                "Failed to parse solver JSON output `"@ + trim(run.stdout@) + "`: "@ + e,
            ),
        },
{
}

/// The factor beside a picture is the number that stands there, and one where
/// none does.
pub proof fn law_factor_of_a_picture(sidecar: Seq<char>)
    ensures
        is_real(trim(sidecar)) ==> scale_factor(Some(sidecar)) == trim(sidecar),
        !is_real(trim(sidecar)) ==> scale_factor(Some(sidecar)) == "1"@,
        scale_factor(None) == "1"@,
{
}

proof fn lemma_first_place(places: Seq<Place>, i: int)
    requires
        0 <= i <= places.len(),
        forall|k: int| 0 <= k < i ==> !(#[trigger] places[k]).exists,
        i < places.len() ==> places[i].exists,
    ensures
        first_place(places) == if i < places.len() {
            Some(places[i].path@)
        } else {
            None
        },
    decreases places.len(),
{
    if places.len() > 0 && i > 0 {
        assert(!places[0].exists);
        let rest = places.skip(1);
        assert forall|k: int| 0 <= k < i - 1 implies !(#[trigger] rest[k]).exists by {
            assert(rest[k] == places[k + 1]);
        }
        lemma_first_place(rest, i - 1);
    }
}

/// The script that the environment names is used where it is there. Else the
/// nearest of the three directories above the program that holds it is, and
/// where none does, the current directory.
pub proof fn law_place_of_the_script(named: Option<Place>, above: Seq<Place>, i: int)
    ensures
        named is Some && named->0.exists ==> script_place(named, above) == named->0.path@,
        (named is None || !named->0.exists) && 0 <= i < above.len() && i < 3 && above[i].exists && (
        forall|k: int| 0 <= k < i ==> !(#[trigger] above[k]).exists) ==> script_place(named, above)
            == above[i].path@,
        (named is None || !named->0.exists) && (forall|k: int|
            0 <= k < above.len() && k < 3 ==> !(#[trigger] above[k]).exists) ==> script_place(
            named,
            above,
        ) == "scripts/raw_tools.py"@,
{
    let count = if above.len() < 3 {
        above.len() as int
    } else {
        3
    };
    let near = above.take(count);
    if 0 <= i < above.len() && i < 3 && above[i].exists && (forall|k: int|
        0 <= k < i ==> !(#[trigger] above[k]).exists) {
        assert forall|k: int| 0 <= k < i implies !(#[trigger] near[k]).exists by {
            assert(near[k] == above[k]);
        }
        lemma_first_place(near, i);
    }
    if forall|k: int| 0 <= k < above.len() && k < 3 ==> !(#[trigger] above[k]).exists {
        assert forall|k: int| 0 <= k < count implies !(#[trigger] near[k]).exists by {
            assert(near[k] == above[k]);
        }
        lemma_first_place(near, count);
    }
}

} // verus!

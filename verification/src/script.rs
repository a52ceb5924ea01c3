//! Preparation of script source text: splitting into lines, dropping the
//! user script's own prelude imports, and cutting marked regions out of the
//! bundled prelude.

use vstd::prelude::*;
use crate::loader::{contains_seq, contains_str};
use crate::text::{chars_of, push_char, split_on, split_str, string_views};

verus! {

/// The text split at line breaks: the chunks between the breaks, in order.
/// Text without a break is one line; a trailing break ends the last line and
/// contributes a final empty one.
pub open spec fn spec_lines(s: Seq<char>) -> Seq<Seq<char>> {
    split_on(s, '\n')
}

/// Split text into lines, exactly as `spec_lines` describes.
pub fn split_lines(s: &str) -> (r: Vec<String>)
    ensures
        string_views(r@) == spec_lines(s@),
{
    split_str(s, '\n')
}

/// Lines joined back with single line breaks.
pub open spec fn spec_join(ls: Seq<Seq<char>>) -> Seq<char>
    decreases ls.len(),
{
    if ls.len() == 0 {
        Seq::empty()
    } else if ls.len() == 1 {
        ls[0]
    } else {
        spec_join(ls.drop_last()) + seq!['\n'] + ls.last()
    }
}

/// Join lines with line breaks, exactly as `spec_join` describes.
pub fn join_lines(ls: &Vec<String>) -> (r: String)
    ensures
        r@ == spec_join(string_views(ls@)),
{
    let n = ls.len();
    if n == 0 {
        return String::new();
    }
    let mut out = ls[0].clone();
    for i in 1..n
        invariant
            n == ls@.len(),
            1 <= n,
            out@ == spec_join(string_views(ls@.take(i as int))),
        decreases n - i,
    {
        push_char(&mut out, '\n');
        out.append(ls[i].as_str());
        proof {
            let vs = string_views(ls@.take(i + 1));
            assert(vs.drop_last() =~= string_views(ls@.take(i as int)));
            assert(vs.last() == ls@[i as int]@);
            assert(out@ =~= spec_join(vs));
        }
    }
    proof {
        assert(string_views(ls@.take(n as int)) =~= string_views(ls@));
    }
    out
}

/// A user-script line survives preparation unless it is a prelude import: a
/// line that starts with `require` and mentions the bundle.
pub open spec fn keeps_line(l: Seq<char>) -> bool {
    !(l.len() >= 7 && l.take(7) == "require"@ && (contains_seq(l, "astra"@) || contains_seq(
        l,
        "astra_bundle"@,
    )))
}

/// The lines that survive, in order.
pub open spec fn kept_lines(ls: Seq<Seq<char>>) -> Seq<Seq<char>>
    decreases ls.len(),
{
    if ls.len() == 0 {
        Seq::empty()
    } else if keeps_line(ls.last()) {
        kept_lines(ls.drop_last()).push(ls.last())
    } else {
        kept_lines(ls.drop_last())
    }
}

fn line_kept(l: &String) -> (r: bool)
    ensures
        r == keeps_line(l@),
{
    let cs = chars_of(l.as_str());
    proof {
        reveal_strlit("require");
    }
    let starts = cs.len() >= 7 && cs[0] == 'r' && cs[1] == 'e' && cs[2] == 'q' && cs[3] == 'u'
        && cs[4] == 'i' && cs[5] == 'r' && cs[6] == 'e';
    proof {
        if cs@.len() >= 7 {
            if l@.take(7) == "require"@ {
                assert(l@.take(7)[0] == 'r' && l@.take(7)[1] == 'e' && l@.take(7)[2] == 'q'
                    && l@.take(7)[3] == 'u' && l@.take(7)[4] == 'i' && l@.take(7)[5] == 'r'
                    && l@.take(7)[6] == 'e');
            }
            if starts {
                assert(l@.take(7) =~= "require"@);
            }
        }
    }
    if !starts {
        return true;
    }
    let has_astra = contains_str(l.as_str(), "astra");
    let has_bundle = contains_str(l.as_str(), "astra_bundle");
    !(has_astra || has_bundle)
}

/// Prepare the user's script for execution: drop every line that re-imports
/// the bundled prelude, keep everything else in order, and join the lines
/// back.
pub fn prepare_script(source: &str) -> (r: String)
    ensures
        r@ == spec_join(kept_lines(spec_lines(source@))),
{
    let lines = split_lines(source);
    let mut kept: Vec<String> = Vec::new();
    let n = lines.len();
    for i in 0..n
        invariant
            n == lines@.len(),
            string_views(kept@) == kept_lines(string_views(lines@.take(i as int))),
    {
        let ghost prefix = string_views(lines@.take(i as int));
        proof {
            assert(string_views(lines@.take(i + 1)).drop_last() =~= prefix);
            assert(string_views(lines@.take(i + 1)).last() == lines@[i as int]@);
        }
        if line_kept(&lines[i]) {
            kept.push(lines[i].clone());
            proof {
                assert(string_views(kept@) =~= kept_lines(string_views(lines@.take(i + 1))));
            }
        } else {
            proof {
                assert(string_views(kept@) =~= kept_lines(string_views(lines@.take(i + 1))));
            }
        }
    }
    proof {
        assert(string_views(lines@.take(n as int)) =~= string_views(lines@));
    }
    join_lines(&kept)
}

/// Whether a line switches region removal on or off: a line carrying the
/// start marker turns it on, one carrying the end marker turns it off.
pub open spec fn region_flag_after(
    l: Seq<char>,
    removing: bool,
    start_m: Seq<char>,
    end_m: Seq<char>,
) -> bool {
    if contains_seq(l, start_m) {
        true
    } else if contains_seq(l, end_m) {
        false
    } else {
        removing
    }
}

/// The lines that survive region removal, in order: marker lines are dropped,
/// and so is everything between a start marker and the next end marker.
pub open spec fn region_kept(
    ls: Seq<Seq<char>>,
    removing: bool,
    start_m: Seq<char>,
    end_m: Seq<char>,
) -> Seq<Seq<char>>
    decreases ls.len(),
{
    if ls.len() == 0 {
        Seq::empty()
    } else {
        let l = ls[0];
        let rest = region_kept(
            ls.drop_first(),
            region_flag_after(l, removing, start_m, end_m),
            start_m,
            end_m,
        );
        if contains_seq(l, start_m) || contains_seq(l, end_m) || removing {
            rest
        } else {
            seq![l] + rest
        }
    }
}

/// Drop the marked regions from the lines, exactly as `region_kept`
/// describes, starting outside any region.
pub fn region_filter_lines(lines: &Vec<String>, start_m: &str, end_m: &str) -> (r: Vec<String>)
    ensures
        string_views(r@) == region_kept(string_views(lines@), false, start_m@, end_m@),
{
    let mut out: Vec<String> = Vec::new();
    let mut removing = false;
    let n = lines.len();
    proof {
        assert(string_views(lines@.skip(0)) =~= string_views(lines@));
        assert(string_views(out@) + region_kept(string_views(lines@), false, start_m@, end_m@)
            =~= region_kept(string_views(lines@), false, start_m@, end_m@));
    }
    for i in 0..n
        invariant
            n == lines@.len(),
            region_kept(string_views(lines@), false, start_m@, end_m@) == string_views(out@)
                + region_kept(
                string_views(lines@.skip(i as int)),
                removing,
                start_m@,
                end_m@,
            ),
    {
        let ghost rem = string_views(lines@.skip(i as int));
        proof {
            assert(rem[0] == lines@[i as int]@);
            assert(rem.drop_first() =~= string_views(lines@.skip(i + 1)));
        }
        let has_start = contains_str(lines[i].as_str(), start_m);
        let has_end = contains_str(lines[i].as_str(), end_m);
        if has_start {
            removing = true;
        } else if has_end {
            removing = false;
        } else if !removing {
            let ghost old_out = string_views(out@);
            out.push(lines[i].clone());
            proof {
                assert(string_views(out@) =~= old_out.push(lines@[i as int]@));
                assert(old_out.push(lines@[i as int]@) + region_kept(
                    string_views(lines@.skip(i + 1)),
                    removing,
                    start_m@,
                    end_m@,
                ) =~= old_out + (seq![lines@[i as int]@] + region_kept(
                    string_views(lines@.skip(i + 1)),
                    removing,
                    start_m@,
                    end_m@,
                )));
            }
        }
    }
    proof {
        assert(string_views(lines@.skip(n as int)) =~= Seq::<Seq<char>>::empty());
        assert(region_kept(Seq::<Seq<char>>::empty(), removing, start_m@, end_m@)
            =~= Seq::<Seq<char>>::empty());
        assert(string_views(out@) + Seq::<Seq<char>>::empty() =~= string_views(out@));
    }
    out
}

/// Prepare the bundled prelude from its packed source: the first text drops
/// the pack-only regions (what the exported bundle carries), the second also
/// drops the runtime-only regions (what the runtime executes at startup).
pub fn prepare_prelude(bundle: &str) -> (r: (String, String))
    ensures
        r.0@ == spec_join(
            region_kept(
                spec_lines(bundle@),
                false,
                "@START_REMOVING_PACK"@,
                "@END_REMOVING_PACK"@,
            ),
        ),
        r.1@ == spec_join(
            region_kept(
                spec_lines(r.0@),
                false,
                "@START_REMOVING_RUNTIME"@,
                "@END_REMOVING_RUNTIME"@,
            ),
        ),
{
    let lines = split_lines(bundle);
    let packed = region_filter_lines(&lines, "@START_REMOVING_PACK", "@END_REMOVING_PACK");
    let lib = join_lines(&packed);
    let lib_lines = split_lines(lib.as_str());
    let cleaned_lines = region_filter_lines(
        &lib_lines,
        "@START_REMOVING_RUNTIME",
        "@END_REMOVING_RUNTIME",
    );
    let cleaned = join_lines(&cleaned_lines);
    (lib, cleaned)
}

} // verus!

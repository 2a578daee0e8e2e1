//! The archive-transform pipeline: open, locate, extract, decode,
//! substitute, rebuild.

use vstd::prelude::*;
use vstd::string::StrSliceExecFns;

use crate::chars::to_chars;
use crate::decode::decode_escapes;
use crate::decode::decode_spec;
use crate::errors::TransformError;
use crate::extzip;
use crate::locate::find_target;
use crate::locate::is_target_name_spec;
use crate::subst::ac_build_ok;
use crate::subst::localize_text;
use crate::subst::replace_spec;
use crate::subst::table_pats;
use crate::subst::table_reps;

verus! {

/// Whether some entry of `es` matches the target naming rule.
pub open spec fn has_target(es: Seq<(Seq<char>, Seq<u8>)>) -> bool {
    exists|i: int| 0 <= i < es.len() && is_target_name_spec(es[i].0)
}

/// Whether `ti` is the position of the first entry of `es` matching
/// the target naming rule.
pub open spec fn is_first_target(es: Seq<(Seq<char>, Seq<u8>)>, ti: int) -> bool {
    &&& 0 <= ti < es.len()
    &&& is_target_name_spec(es[ti].0)
    &&& forall|j: int| 0 <= j < ti ==> !is_target_name_spec(es[j].0)
}

/// The localized content of the target entry: its bytes read as UTF-8,
/// escape-decoded, run through the fixed substitution table, and
/// re-encoded as plain UTF-8. `None` when the bytes are not valid
/// UTF-8 or hold a malformed escape.
pub open spec fn localized_content(content: Seq<u8>) -> Option<Seq<u8>> {
    if !vstd::utf8::valid_utf8(content) {
        None
    } else {
        match decode_spec(vstd::utf8::decode_utf8(content)) {
            Some(d) => Some(vstd::utf8::encode_utf8(replace_spec(table_pats(), table_reps(), d))),
            None => None,
        }
    }
}

/// The entries of the rebuilt archive: every entry but the one at `ti`
/// in their original order, then the transformed target appended.
pub open spec fn rebuilt_entries(
    es: Seq<(Seq<char>, Seq<u8>)>,
    ti: int,
    new_content: Seq<u8>,
) -> Seq<(Seq<char>, Seq<u8>)> {
    es.remove(ti).push((es[ti].0, new_content))
}

/// The prefix of copied entries after the first `j` source entries
/// have been walked, the target at `ti` being skipped.
spec fn copied_prefix(es: Seq<(Seq<char>, Seq<u8>)>, ti: int, j: int) -> Seq<(Seq<char>, Seq<u8>)> {
    if j <= ti {
        es.take(j)
    } else {
        es.take(ti) + es.subrange(ti + 1, j)
    }
}

/// Transforms a packaged quiz archive: finds the first entry whose
/// name matches the target rule, localizes its escape-encoded text,
/// and returns a new archive holding every other entry unchanged (in
/// order) with the transformed target appended.
///
/// Failure is total: on any error no output bytes are produced, and
/// each error kind comes exactly on the inputs its clause states —
/// archive parsing, entry reading, the UTF-8 and escape checks and the
/// automaton build are all deterministic in the input, so each of
/// those failures is owed as an `iff`. The one opening left is a
/// failure of the archive writer while copying, appending or
/// finishing: its outcome turns on the writer's internal state, which
/// this contract cannot name, so `BuildError` for that stage is owed
/// only as the alternative to success in the second-to-last clause.
pub fn process_bytes(src: Vec<u8>) -> (r: Result<Vec<u8>, TransformError>)
    ensures
        r == Err::<Vec<u8>, TransformError>(TransformError::ArchiveOpenError) <==> !extzip::zip_parse_ok(
            src@,
        ),
        r == Err::<Vec<u8>, TransformError>(TransformError::NotFound) <==> extzip::zip_parse_ok(
            src@,
        ) && !has_target(extzip::zip_parse(src@)),
        r == Err::<Vec<u8>, TransformError>(TransformError::ReadError) <==> extzip::zip_parse_ok(
            src@,
        ) && exists|ti: int|
            #[trigger] is_first_target(extzip::zip_parse(src@), ti) && !extzip::zip_read_ok(
                src@,
                extzip::zip_parse(src@)[ti].0,
            ),
        r == Err::<Vec<u8>, TransformError>(TransformError::InvalidText) <==> extzip::zip_parse_ok(
            src@,
        ) && exists|ti: int|
            #[trigger] is_first_target(extzip::zip_parse(src@), ti) && extzip::zip_read_ok(
                src@,
                extzip::zip_parse(src@)[ti].0,
            ) && !vstd::utf8::valid_utf8(extzip::zip_parse(src@)[ti].1),
        r == Err::<Vec<u8>, TransformError>(TransformError::InvalidEscape) <==> extzip::zip_parse_ok(
            src@,
        ) && exists|ti: int|
            #[trigger] is_first_target(extzip::zip_parse(src@), ti) && extzip::zip_read_ok(
                src@,
                extzip::zip_parse(src@)[ti].0,
            ) && vstd::utf8::valid_utf8(extzip::zip_parse(src@)[ti].1) && decode_spec(
                vstd::utf8::decode_utf8(extzip::zip_parse(src@)[ti].1),
            ) is None,
        r == Err::<Vec<u8>, TransformError>(TransformError::BuildError) ==> exists|ti: int|
            #[trigger] is_first_target(extzip::zip_parse(src@), ti) && extzip::zip_read_ok(
                src@,
                extzip::zip_parse(src@)[ti].0,
            ) && localized_content(extzip::zip_parse(src@)[ti].1) is Some,
        (extzip::zip_parse_ok(src@) && exists|ti: int|
            #[trigger] is_first_target(extzip::zip_parse(src@), ti) && extzip::zip_read_ok(
                src@,
                extzip::zip_parse(src@)[ti].0,
            ) && localized_content(extzip::zip_parse(src@)[ti].1) is Some && !ac_build_ok(
                table_pats(),
            )) ==> r == Err::<Vec<u8>, TransformError>(TransformError::BuildError),
        (extzip::zip_parse_ok(src@) && exists|ti: int|
            #[trigger] is_first_target(extzip::zip_parse(src@), ti) && extzip::zip_read_ok(
                src@,
                extzip::zip_parse(src@)[ti].0,
            ) && localized_content(extzip::zip_parse(src@)[ti].1) is Some && ac_build_ok(
                table_pats(),
            )) ==> (r is Ok || r == Err::<Vec<u8>, TransformError>(TransformError::BuildError)),
        r matches Ok(out) ==> exists|ti: int|
            {
                &&& #[trigger] is_first_target(extzip::zip_parse(src@), ti)
                &&& localized_content(extzip::zip_parse(src@)[ti].1) matches Some(nb)
                &&& extzip::zip_parse_ok(out@)
                &&& extzip::zip_parse(out@) == rebuilt_entries(extzip::zip_parse(src@), ti, nb)
            },
{
    let ghost b = src@;
    let mut arch = match extzip::archive_open(src) {
        Ok(a) => a,
        Err(_) => {
            return Err(TransformError::ArchiveOpenError);
        },
    };
    let ghost es = extzip::zip_entries(arch);
    let names = extzip::archive_names(&arch);
    let ti = match find_target(&names) {
        Some(i) => i,
        None => {
            proof {
                assert forall|i: int| 0 <= i < es.len() implies !is_target_name_spec(es[i].0) by {
                    assert(names@[i]@ == es[i].0);
                }
                assert forall|t: int| !#[trigger] is_first_target(es, t) by {
                    if is_first_target(es, t) {
                        assert(is_target_name_spec(es[t].0));
                    }
                }
            }
            return Err(TransformError::NotFound);
        },
    };
    proof {
        assert(es[ti as int].0 == names@[ti as int]@);
        assert(is_first_target(es, ti as int)) by {
            assert forall|j: int| 0 <= j < ti implies !is_target_name_spec(es[j].0) by {
                assert(names@[j]@ == es[j].0);
            }
        }
        assert(has_target(es));
        assert forall|t: int| #[trigger] is_first_target(es, t) implies t == ti as int by {
            if t < ti as int {
                assert(!is_target_name_spec(es[t].0));
            } else if t > ti as int {
                assert(!is_target_name_spec(es[ti as int].0));
            }
        }
    }
    let target_name = names[ti].clone();
    let content = match extzip::archive_read(&mut arch, &target_name) {
        Ok(v) => v,
        Err(_) => {
            proof {
                assert(!extzip::zip_read_ok(b, es[ti as int].0));
            }
            return Err(TransformError::ReadError);
        },
    };
    proof {
        assert(extzip::zip_read_ok(b, es[ti as int].0));
        let i = choose|i: int|
            0 <= i < es.len() && #[trigger] es[i].0 == target_name@ && content@ == es[i].1;
        assert(es[ti as int].0 == target_name@);
        assert(i == ti as int);
        assert(content@ == es[ti as int].1);
    }
    let text = match crate::textio::utf8_to_string(content) {
        Ok(s) => s,
        Err(_) => {
            return Err(TransformError::InvalidText);
        },
    };
    let text_chars = to_chars(text.as_str());
    let decoded = match decode_escapes(&text_chars) {
        Ok(s) => s,
        Err(e) => {
            return Err(e);
        },
    };
    let localized = match localize_text(decoded.as_str()) {
        Ok(s) => s,
        Err(e) => {
            proof {
                assert(localized_content(es[ti as int].1) is Some);
            }
            return Err(e);
        },
    };
    let new_bytes = localized.as_str().as_bytes_vec();
    proof {
        assert(localized_content(es[ti as int].1) == Some(new_bytes@));
    }

    // Rebuild: copy every entry but the target, in order, then append
    // the transformed target.
    let n = names.len();
    let mut w = extzip::writer_new();
    let mut j: usize = 0;
    proof {
        assert(copied_prefix(es, ti as int, 0) =~= extzip::writer_entries(w));
    }
    while j < n
        invariant
            n == names@.len(),
            n == es.len(),
            ti < n,
            j <= n,
            b == src@,
            extzip::zip_parse_ok(b),
            es == extzip::zip_parse(b),
            es == extzip::zip_entries(arch),
            extzip::unique_names(es),
            is_first_target(es, ti as int),
            forall|t: int| #[trigger] is_first_target(es, t) ==> t == ti as int,
            has_target(es),
            target_name@ == es[ti as int].0,
            extzip::zip_read_ok(b, es[ti as int].0),
            localized_content(es[ti as int].1) == Some(new_bytes@),
            ac_build_ok(table_pats()),
            forall|i: int| 0 <= i < n ==> names@[i]@ == es[i].0,
            extzip::writer_entries(w) == copied_prefix(es, ti as int, j as int),
        decreases n - j,
    {
        if j != ti {
            let ghost w_before = extzip::writer_entries(w);
            match extzip::writer_copy_from(&mut w, &mut arch, &names[j]) {
                Ok(_) => {
                    proof {
                        let i = choose|i: int|
                            0 <= i < es.len() && #[trigger] es[i].0 == names@[j as int]@
                                && extzip::writer_entries(w) == w_before.push(
                                (names@[j as int]@, es[i].1),
                            );
                        assert(es[j as int].0 == names@[j as int]@);
                        assert(i == j as int);
                        assert((names@[j as int]@, es[j as int].1) == es[j as int]);
                        lemma_copied_prefix_step(es, ti as int, j as int);
                    }
                },
                Err(_) => {
                    return Err(TransformError::BuildError);
                },
            }
        } else {
            proof {
                assert(copied_prefix(es, ti as int, j as int) =~= copied_prefix(
                    es,
                    ti as int,
                    j as int + 1,
                ));
            }
        }
        j = j + 1;
    }
    match extzip::writer_write_entry(&mut w, &target_name, &new_bytes) {
        Ok(_) => {},
        Err(_) => {
            return Err(TransformError::BuildError);
        },
    }
    let out = match extzip::writer_finish(w) {
        Ok(v) => v,
        Err(_) => {
            return Err(TransformError::BuildError);
        },
    };
    proof {
        assert(copied_prefix(es, ti as int, n as int) =~= es.remove(ti as int));
        assert(extzip::zip_parse(out@) == rebuilt_entries(es, ti as int, new_bytes@));
    }
    Ok(out)
}

/// Copying the non-target entry at `j` extends the copied prefix by
/// one.
proof fn lemma_copied_prefix_step(es: Seq<(Seq<char>, Seq<u8>)>, ti: int, j: int)
    requires
        0 <= j < es.len(),
        0 <= ti < es.len(),
        j != ti,
    ensures
        copied_prefix(es, ti, j).push(es[j]) =~= copied_prefix(es, ti, j + 1),
{
}

} // verus!

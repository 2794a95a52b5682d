//! The sound catalogue: the built-in sounds and lookup by id. Playback
//! itself lives outside the engine; only the catalogue logic is here.

use vstd::prelude::*;
use vstd::string::StringExecFns;

use crate::app_data::AppData;
use crate::app_data::CustomAudio;
use crate::app_data::clone_string;
use crate::strutil::str_eq;

verus! {

/// What the built-in sound list holds, in order.
pub open spec fn builtin_audios_ok(a: Seq<CustomAudio>) -> bool {
    &&& a.len() == 5
    &&& a[0].id@ == "builtin-rain"@ && a[0].name@ == "雨声"@ && a[0].file_name@ == "rain.wav"@
        && a[0].builtin
    &&& a[1].id@ == "builtin-cafe"@ && a[1].name@ == "咖啡馆"@ && a[1].file_name@ == "cafe.wav"@
        && a[1].builtin
    &&& a[2].id@ == "builtin-forest"@ && a[2].name@ == "森林"@ && a[2].file_name@
        == "forest.wav"@ && a[2].builtin
    &&& a[3].id@ == "builtin-ocean"@ && a[3].name@ == "海浪"@ && a[3].file_name@ == "ocean.wav"@
        && a[3].builtin
    &&& a[4].id@ == "builtin-white-noise"@ && a[4].name@ == "白噪音"@ && a[4].file_name@
        == "white-noise.wav"@ && a[4].builtin
}

/// One sound catalogue entry.
fn entry(id: &str, name: &str, file_name: &str) -> (r: CustomAudio)
    ensures
        r.id@ == id@,
        r.name@ == name@,
        r.file_name@ == file_name@,
        r.builtin,
{
    CustomAudio {
        id: id.to_owned(),
        name: name.to_owned(),
        file_name: file_name.to_owned(),
        builtin: true,
    }
}

/// The built-in sounds; they cannot be deleted.
pub fn builtin_audios() -> (r: Vec<CustomAudio>)
    ensures
        builtin_audios_ok(r@),
{
    let mut a: Vec<CustomAudio> = Vec::new();
    a.push(entry("builtin-rain", "雨声", "rain.wav"));
    a.push(entry("builtin-cafe", "咖啡馆", "cafe.wav"));
    a.push(entry("builtin-forest", "森林", "forest.wav"));
    a.push(entry("builtin-ocean", "海浪", "ocean.wav"));
    a.push(entry("builtin-white-noise", "白噪音", "white-noise.wav"));
    a
}

/// The first index of a sound with the given id, or -1.
pub open spec fn find_audio(cs: Seq<CustomAudio>, id: Seq<char>) -> int
    decreases cs.len(),
{
    if cs.len() == 0 {
        -1
    } else if cs[0].id@ == id {
        0
    } else {
        let r = find_audio(cs.drop_first(), id);
        if r < 0 {
            -1
        } else {
            r + 1
        }
    }
}

/// What `find_audio` returns: the first match, or -1 when nothing matches.
pub proof fn lemma_find_audio(cs: Seq<CustomAudio>, id: Seq<char>)
    ensures
        find_audio(cs, id) >= 0 ==> 0 <= find_audio(cs, id) < cs.len() && cs[find_audio(
            cs,
            id,
        )].id@ == id && (forall|j: int| 0 <= j < find_audio(cs, id) ==> (#[trigger] cs[j].id@)
            != id),
        find_audio(cs, id) < 0 ==> (forall|j: int| 0 <= j < cs.len() ==> (#[trigger] cs[j].id@)
            != id),
    decreases cs.len(),
{
    if cs.len() > 0 && cs[0].id@ != id {
        let c2 = cs.drop_first();
        lemma_find_audio(c2, id);
        let r = find_audio(c2, id);
        if r >= 0 {
            assert(c2[r] == cs[r + 1]);
            assert forall|j: int| 0 <= j < r + 1 implies (#[trigger] cs[j].id@) != id by {
                if j > 0 {
                    assert(c2[j - 1] == cs[j]);
                }
            }
        } else {
            assert forall|j: int| 0 <= j < cs.len() implies (#[trigger] cs[j].id@) != id by {
                if j > 0 {
                    assert(c2[j - 1] == cs[j]);
                }
            }
        }
    }
}

/// Whether two catalogue entries hold the same contents.
pub open spec fn audio_like(a: CustomAudio, b: CustomAudio) -> bool {
    a.id@ == b.id@ && a.name@ == b.name@ && a.file_name@ == b.file_name@ && a.builtin == b.builtin
}

/// A copy of a catalogue entry with the same contents.
fn clone_audio(a: &CustomAudio) -> (r: CustomAudio)
    ensures
        audio_like(r, *a),
{
    CustomAudio {
        id: clone_string(&a.id),
        name: clone_string(&a.name),
        file_name: clone_string(&a.file_name),
        builtin: a.builtin,
    }
}

/// Whether an id names one of the built-in sounds.
pub open spec fn is_builtin_audio_id(id: Seq<char>) -> bool {
    ||| id == "builtin-rain"@
    ||| id == "builtin-cafe"@
    ||| id == "builtin-forest"@
    ||| id == "builtin-ocean"@
    ||| id == "builtin-white-noise"@
}

/// What the built-in entry with a given id holds.
pub open spec fn builtin_entry_ok(a: CustomAudio) -> bool {
    &&& a.builtin
    &&& (a.id@ == "builtin-rain"@ ==> a.name@ == "雨声"@ && a.file_name@ == "rain.wav"@)
    &&& (a.id@ == "builtin-cafe"@ ==> a.name@ == "咖啡馆"@ && a.file_name@ == "cafe.wav"@)
    &&& (a.id@ == "builtin-forest"@ ==> a.name@ == "森林"@ && a.file_name@ == "forest.wav"@)
    &&& (a.id@ == "builtin-ocean"@ ==> a.name@ == "海浪"@ && a.file_name@ == "ocean.wav"@)
    &&& (a.id@ == "builtin-white-noise"@ ==> a.name@ == "白噪音"@ && a.file_name@
        == "white-noise.wav"@)
}

/// `find_audio` finds an index that is known to be the first match.
proof fn lemma_find_audio_at(cs: Seq<CustomAudio>, id: Seq<char>, i: int)
    requires
        0 <= i < cs.len(),
        cs[i].id@ == id,
        forall|j: int| 0 <= j < i ==> (#[trigger] cs[j].id@) != id,
    ensures
        find_audio(cs, id) == i,
    decreases i,
{
    if i > 0 {
        let c2 = cs.drop_first();
        assert(forall|j: int| 0 <= j < i - 1 ==> #[trigger] c2[j] == cs[j + 1]);
        lemma_find_audio_at(c2, id, i - 1);
    }
}

/// Look a sound up by id: the built-in catalogue first, then the imported
/// sounds, each by first match.
pub fn find_audio_by_id(data: &AppData, audio_id: &str) -> (r: Option<CustomAudio>)
    ensures
        (r is Some) == (is_builtin_audio_id(audio_id@) || find_audio(
            data.custom_audios@,
            audio_id@,
        ) >= 0),
        r matches Some(a) ==> a.id@ == audio_id@ && (is_builtin_audio_id(audio_id@)
            ==> builtin_entry_ok(a)) && (!is_builtin_audio_id(audio_id@) ==> audio_like(
            a,
            data.custom_audios@[find_audio(data.custom_audios@, audio_id@)],
        )),
{
    let builtin = builtin_audios();
    proof {
        reveal_strlit("builtin-rain");
        reveal_strlit("builtin-cafe");
        reveal_strlit("builtin-forest");
        reveal_strlit("builtin-ocean");
        reveal_strlit("builtin-white-noise");
    }
    let ghost bs = builtin@;
    let m = builtin.len();
    let mut i: usize = 0;
    while i < m
        invariant
            i <= m,
            m == 5,
            builtin@ == bs,
            builtin_audios_ok(bs),
            forall|j: int| 0 <= j < i ==> (#[trigger] bs[j].id@) != audio_id@,
        decreases m - i,
    {
        if str_eq(builtin[i].id.as_str(), audio_id) {
            let found = clone_audio(&builtin[i]);
            proof {
                reveal_strlit("builtin-rain");
                reveal_strlit("builtin-cafe");
                reveal_strlit("builtin-forest");
                reveal_strlit("builtin-ocean");
                reveal_strlit("builtin-white-noise");
                assert("builtin-rain"@[8] == 'r');
                assert("builtin-cafe"@[8] == 'c');
                let ii = i as int;
                assert(audio_like(found, bs[ii]));
                assert("builtin-rain"@.len() == 12);
                assert("builtin-cafe"@.len() == 12);
                assert("builtin-forest"@.len() == 14);
                assert("builtin-ocean"@.len() == 13);
                assert("builtin-white-noise"@.len() == 19);
                if ii == 0 {
                    assert(found.id@ == "builtin-rain"@);
                    assert(builtin_entry_ok(found));
                } else if ii == 1 {
                    assert(found.id@ == "builtin-cafe"@);
                    assert(builtin_entry_ok(found));
                } else if ii == 2 {
                    assert(found.id@ == "builtin-forest"@);
                    assert(builtin_entry_ok(found));
                } else if ii == 3 {
                    assert(found.id@ == "builtin-ocean"@);
                    assert(builtin_entry_ok(found));
                } else {
                    assert(found.id@ == "builtin-white-noise"@);
                    assert(builtin_entry_ok(found));
                }
                assert(is_builtin_audio_id(audio_id@));
            }
            return Some(found);
        }
        i = i + 1;
    }
    proof {
        assert(!is_builtin_audio_id(audio_id@));
    }
    let n = data.custom_audios.len();
    let mut k: usize = 0;
    while k < n
        invariant
            k <= n,
            n == data.custom_audios@.len(),
            !is_builtin_audio_id(audio_id@),
            forall|j: int| 0 <= j < k ==> (#[trigger] data.custom_audios@[j].id@) != audio_id@,
        decreases n - k,
    {
        if str_eq(data.custom_audios[k].id.as_str(), audio_id) {
            proof {
                lemma_find_audio_at(data.custom_audios@, audio_id@, k as int);
            }
            return Some(clone_audio(&data.custom_audios[k]));
        }
        k = k + 1;
    }
    proof {
        lemma_find_audio(data.custom_audios@, audio_id@);
        if find_audio(data.custom_audios@, audio_id@) >= 0 {
            assert(data.custom_audios@[find_audio(data.custom_audios@, audio_id@)].id@
                == audio_id@);
            assert(false);
        }
    }
    None
}

} // verus!

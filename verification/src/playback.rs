//! Playing a list of files one after another.

use vstd::prelude::*;

verus! {

/// Plays each file of `paths` in order with `play`, stopping at the first
/// failure and returning it.
pub fn play_audio_files<F: Fn(&String) -> Result<(), String>>(paths: &Vec<String>, play: F) -> (r: Result<(), String>)
    requires
        forall|i: int| 0 <= i < paths@.len() ==> call_requires(play, (&paths@[i],)),
    ensures
        r is Ok ==> forall|i: int| 0 <= i < paths@.len() ==> call_ensures(play, (&paths@[i],), Ok::<(), String>(())),
        r matches Err(e) ==> exists|k: int| 0 <= k < paths@.len()
            && call_ensures(play, (&paths@[k],), Err::<(), String>(e))
            && forall|i: int| 0 <= i < k ==> call_ensures(play, (&paths@[i],), Ok::<(), String>(())),
{
    let mut i: usize = 0;
    while i < paths.len()
        invariant
            i <= paths.len(),
            forall|j: int| 0 <= j < paths@.len() ==> call_requires(play, (&paths@[j],)),
            forall|j: int| 0 <= j < i ==> call_ensures(play, (&paths@[j],), Ok::<(), String>(())),
        decreases paths.len() - i,
    {
        let p = &paths[i];
        let res = play(p);
        if res.is_err() {
            return res;
        }
        proof {
            let u: () = res->Ok_0;
            assert(u == ());
            assert(res == Ok::<(), String>(()));
        }
        i = i + 1;
    }
    Ok(())
}

} // verus!

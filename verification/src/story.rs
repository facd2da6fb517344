use vstd::prelude::*;
use vstd::string::StrSliceExecFns;

verus! {

/// What a story is asked to contain.
#[derive(Debug)]
pub struct HelvesStoryRequest {
    pub place: String,
    pub characters: Vec<String>,
    pub objects: Vec<String>,
}

/// The finished story.
#[derive(Debug)]
pub struct HelvesStoryResponse {
    pub story: String,
}

/// The closing instruction tag stands at position `i` of the text.
pub open spec fn marker_at(s: Seq<char>, i: int) -> bool {
    &&& 0 <= i
    &&& i + 7 <= s.len()
    &&& s[i] == '<'
    &&& s[i + 1] == '/'
    &&& s[i + 2] == 'I'
    &&& s[i + 3] == 'N'
    &&& s[i + 4] == 'S'
    &&& s[i + 5] == 'T'
    &&& s[i + 6] == '>'
}

/// Strips everything up to and including the last closing instruction tag:
/// what follows it is the story itself. A text without the tag is returned
/// unchanged.
pub fn clean_story(story: &str) -> (r: String)
    ensures
        (forall|k: int| !marker_at(story@, k)) ==> r@ == story@,
        (exists|k: int| marker_at(story@, k)) ==> (exists|j: int|
            marker_at(story@, j) && (forall|k: int| j < k ==> !marker_at(story@, k)) && r@
                == story@.skip(j + 7)),
{
    let n = story.unicode_len();
    if n < 7 {
        assert(forall|k: int| !marker_at(story@, k));
        return story.to_owned();
    }
    let mut i: usize = n - 7;
    loop
        invariant
            n == story@.len(),
            7 <= n,
            i <= n - 7,
            forall|k: int| i < k ==> !marker_at(story@, k),
        ensures
            forall|k: int| !marker_at(story@, k),
        decreases i,
    {
        if story.get_char(i) == '<' && story.get_char(i + 1) == '/' && story.get_char(i + 2)
            == 'I' && story.get_char(i + 3) == 'N' && story.get_char(i + 4) == 'S'
            && story.get_char(i + 5) == 'T' && story.get_char(i + 6) == '>' {
            let tail = story.substring_char(i + 7, n);
            let r = tail.to_owned();
            proof {
                assert(marker_at(story@, i as int));
                assert(r@ =~= story@.skip(i as int + 7));
            }
            return r;
        }
        assert(!marker_at(story@, i as int));
        if i == 0 {
            break;
        }
        i = i - 1;
    }
    story.to_owned()
}

} // verus!

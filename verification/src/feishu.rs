use vstd::prelude::*;

use crate::text::{chars_of, string_of};

verus! {

/// The display width a status title accounts for one character: 1 for an
/// ASCII character, 2 for any other.
pub open spec fn char_weight(c: char) -> int {
    if (c as u32) < 128 {
        1
    } else {
        2
    }
}

/// The longest prefix whose accumulated width, starting from `count`,
/// never exceeds 20.
pub open spec fn truncated_title(s: Seq<char>, count: int) -> Seq<char>
    decreases s.len(),
{
    if s.len() == 0 {
        Seq::empty()
    } else if count + char_weight(s.first()) > 20 {
        Seq::empty()
    } else {
        seq![s.first()] + truncated_title(s.drop_first(), count + char_weight(s.first()))
    }
}

/// Truncates a now-playing title for the workplace status: characters are
/// kept while their accumulated display width stays within 20, ASCII
/// characters counting 1 and all others 2.
pub fn truncate_status_title(name: &str) -> (r: String)
    ensures
        r@ == truncated_title(name@, 0),
{
    let cs = chars_of(name);
    let mut out: Vec<char> = Vec::new();
    let mut count: u32 = 0;
    let mut i: usize = 0;
    proof {
        assert(name@.skip(0) =~= name@);
        assert(out@ + truncated_title(name@, 0) =~= truncated_title(name@, 0));
    }
    while i < cs.len()
        invariant
            i <= cs.len(),
            cs@ == name@,
            count <= 20,
            truncated_title(name@, 0) == out@ + truncated_title(
                name@.skip(i as int),
                count as int,
            ),
        decreases cs.len() - i,
    {
        let c = cs[i];
        let ghost out0 = out@;
        let ghost c0 = count as int;
        let ghost i0 = i as int;
        proof {
            assert(name@.skip(i0).first() == name@[i0]);
            assert(name@.skip(i0).drop_first() =~= name@.skip(i0 + 1));
        }
        let w: u32 = if (c as u32) < 128 {
            1
        } else {
            2
        };
        proof {
            assert(w as int == char_weight(name@[i0]));
        }
        if count + w > 20 {
            proof {
                assert(truncated_title(name@.skip(i0), c0) =~= Seq::<char>::empty());
                assert(out@ + truncated_title(name@.skip(i0), c0) =~= out@);
            }
            return string_of(&out);
        }
        count = count + w;
        out.push(c);
        i += 1;
        proof {
            assert(truncated_title(name@.skip(i0), c0) == seq![name@[i0]] + truncated_title(
                name@.skip(i0 + 1),
                c0 + char_weight(name@[i0]),
            ));
            assert(out@ =~= out0 + seq![name@[i0]]);
            assert(out0 + (seq![name@[i0]] + truncated_title(name@.skip(i as int), count as int))
                =~= (out0 + seq![name@[i0]]) + truncated_title(
                name@.skip(i as int),
                count as int,
            ));
        }
    }
    proof {
        assert(name@.skip(name@.len() as int) =~= Seq::<char>::empty());
        assert(out@ + truncated_title(name@.skip(name@.len() as int), count as int) =~= out@);
    }
    string_of(&out)
}

/// One user the workplace status is opened for, and the moment it ends,
/// in seconds.
pub struct User {
    pub user_id: String,
    pub end_time: u128,
}

/// The users the workplace status is opened for.
pub struct UserList {
    pub user_list: Vec<User>,
}

impl UserList {
    /// Sets every user's end time to the given moment, converted from
    /// milliseconds to seconds.
    pub fn set_end_times(&mut self, time: u128)
        ensures
            final(self).user_list@.len() == old(self).user_list@.len(),
            forall|k: int|
                0 <= k < old(self).user_list@.len() ==> #[trigger] final(self).user_list@[k].user_id
                    == old(self).user_list@[k].user_id && final(self).user_list@[k].end_time
                    == time / 1000,
    {
        let mut updated: Vec<User> = Vec::new();
        let mut i: usize = 0;
        while i < self.user_list.len()
            invariant
                i <= self.user_list@.len(),
                self.user_list@ == old(self).user_list@,
                updated@.len() == i,
                forall|k: int|
                    0 <= k < i ==> #[trigger] updated@[k].user_id == old(self).user_list@[k].user_id
                        && updated@[k].end_time == time / 1000,
            decreases self.user_list@.len() - i,
        {
            updated.push(User { user_id: self.user_list[i].user_id.clone(), end_time: time / 1000 });
            i += 1;
        }
        self.user_list = updated;
    }
}

} // verus!

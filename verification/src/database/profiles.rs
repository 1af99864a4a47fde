use vstd::prelude::*;
use crate::database::model::DbView;
use crate::database::model::Follow;
use crate::database::Db;

verus! {

/// Whether `follower` can start to follow `followed`: they are two
/// different users that exist, and the first does not follow the second yet.
pub open spec fn can_follow(db: DbView, follower: int, followed: int) -> bool {
    &&& follower != followed
    &&& db.has_user(follower)
    &&& db.has_user(followed)
    &&& !db.is_following(follower, followed)
}

/// Makes `follower` follow `followed`, and says whether a row was stored.
pub fn follow(db: &mut Db, follower: i32, followed: i32) -> (stored: bool)
    requires
        old(db).wf(),
    ensures
        final(db).wf(),
        stored == can_follow(old(db)@, follower as int, followed as int),
        final(db)@ == if stored {
            old(db)@.with_follow(Follow { follower, followed })
        } else {
            old(db)@
        },
        stored ==> final(db)@.is_following(follower as int, followed as int),
{
    if follower == followed {
        return false;
    }
    if db.user_position(follower).is_none() || db.user_position(followed).is_none() {
        return false;
    }
    if db.follow_position(follower, followed).is_some() {
        return false;
    }
    let ghost pre = db@;
    proof {
        pre.lemma_with_follow_wf(Follow { follower, followed });
    }
    db.follows.push(Follow { follower, followed });
    assert(db@ == pre.with_follow(Follow { follower, followed }));
    true
}

/// Makes `follower` stop following `followed`, and says whether a row was
/// deleted.
pub fn unfollow(db: &mut Db, follower: i32, followed: i32) -> (deleted: bool)
    requires
        old(db).wf(),
    ensures
        final(db).wf(),
        deleted == old(db)@.is_following(follower as int, followed as int),
        final(db)@ == if deleted {
            old(db)@.without_follow(old(db)@.follow_index(follower as int, followed as int))
        } else {
            old(db)@
        },
        !final(db)@.is_following(follower as int, followed as int),
{
    match db.follow_position(follower, followed) {
        Some(k) => {
            let ghost pre = db@;
            proof {
                pre.lemma_follow_at(k as int);
                pre.lemma_without_follow_wf(k as int);
            }
            db.follows.remove(k);
            assert(db@ == pre.without_follow(k as int));
            true
        },
        None => false,
    }
}

/// Whether `follower` follows `followed`.
pub fn is_following(db: &Db, follower: i32, followed: i32) -> (following: bool)
    ensures
        following == db@.is_following(follower as int, followed as int),
{
    db.follow_position(follower, followed).is_some()
}

} // verus!

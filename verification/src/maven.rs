//! Maven coordinates and the relative paths that stand for them.
//!
//! A coordinate is `group:name:version` or `group:name:version:classifier`.
//! Its path is `group/name/version/name-version.jar`, with the dots of the
//! group turned into slashes, and with `-classifier` before `.jar` where a
//! classifier is given.

use vstd::prelude::*;
use vstd::string::*;
use crate::error::{LauncherError, LauncherErrorView};
use crate::text::{spec_split, split, texts};

verus! {

/// The directories of a group: the group with every dot turned into a
/// slash.
pub open spec fn spec_group_directory(group: Seq<char>) -> Seq<char> {
    Seq::new(
        group.len(),
        |i: int|
            if group[i] == '.' {
                '/'
            } else {
                group[i]
            },
    )
}

/// The directory of an artifact, with the slash that ends it.
pub open spec fn maven_directory(group: Seq<char>, name: Seq<char>, version: Seq<char>) -> Seq<
    char,
> {
    spec_group_directory(group) + seq!['/'] + name + seq!['/'] + version + seq!['/']
}

/// What stands between the version and `.jar` in a file name.
pub open spec fn maven_classifier_part(classifier: Option<Seq<char>>) -> Seq<char> {
    match classifier {
        Some(c) => seq!['-'] + c,
        None => Seq::<char>::empty(),
    }
}

/// The file name of an artifact.
pub open spec fn maven_file(name: Seq<char>, version: Seq<char>, classifier: Option<Seq<char>>) -> Seq<
    char,
> {
    name + seq!['-'] + version + maven_classifier_part(classifier) + seq!['.', 'j', 'a', 'r']
}

/// The classifier among the parts of a coordinate, if it has one.
pub open spec fn maven_classifier(parts: Seq<Seq<char>>) -> Option<Seq<char>> {
    if parts.len() == 4 {
        Some(parts[3])
    } else {
        None
    }
}

/// The relative path of a coordinate; `None` where the text is no coordinate,
/// that is where it has not three or four parts between colons.
pub open spec fn spec_maven_path(artifact: Seq<char>) -> Option<Seq<char>> {
    let parts = spec_split(artifact, ':');
    if parts.len() == 3 || parts.len() == 4 {
        Some(
            maven_directory(parts[0], parts[1], parts[2]) + maven_file(
                parts[1],
                parts[2],
                maven_classifier(parts),
            ),
        )
    } else {
        None
    }
}

/// The text of the failure for a text that is no coordinate.
pub open spec fn invalid_artifact_message(artifact: Seq<char>) -> Seq<char> {
    "invalid artifact name "@ + artifact
}

/// The directories of a group.
pub fn group_directory(group: &str) -> (r: String)
    ensures
        r@ == spec_group_directory(group@),
{
    let n: usize = group.unicode_len();
    let mut out = String::new();
    let mut i: usize = 0;
    proof {
        reveal_strlit("/");
        assert("/"@ =~= seq!['/']);
    }
    while i < n
        invariant
            i <= n,
            n == group@.len(),
            "/"@ == seq!['/'],
            out@ == spec_group_directory(group@.take(i as int)),
        decreases n - i,
    {
        if group.get_char(i) == '.' {
            out.append("/");
        } else {
            out.append(group.substring_char(i, i + 1));
        }
        assert(out@ =~= spec_group_directory(group@.take(i + 1)));
        i += 1;
    }
    assert(group@.take(n as int) =~= group@);
    out
}

/// The relative path of a Maven coordinate.
pub fn get_maven_artifact_path(artifact: &str) -> (r: Result<String, LauncherError>)
    ensures
        match spec_maven_path(artifact@) {
            Some(path) => r matches Ok(p) && p@ == path,
            None => r matches Err(e) && e@ == LauncherErrorView::InvalidDescriptor(
                invalid_artifact_message(artifact@),
            ),
        },
{
    let parts: Vec<String> = split(artifact, ':');
    let count: usize = parts.len();
    proof {
        assert(texts(parts@).len() == count);
    }
    if count != 3 && count != 4 {
        let mut message: String = "invalid artifact name ".to_owned();
        message.append(artifact);
        return Err(LauncherError::InvalidDescriptor(message));
    }
    proof {
        reveal_strlit("/");
        reveal_strlit("-");
        reveal_strlit(".jar");
        assert("/"@ =~= seq!['/']);
        assert("-"@ =~= seq!['-']);
        assert(".jar"@ =~= seq!['.', 'j', 'a', 'r']);
        assert(texts(parts@)[0] == parts@[0]@);
        assert(texts(parts@)[1] == parts@[1]@);
        assert(texts(parts@)[2] == parts@[2]@);
    }
    let mut path: String = group_directory(parts[0].as_str());
    path.append("/");
    path.append(parts[1].as_str());
    path.append("/");
    path.append(parts[2].as_str());
    path.append("/");
    path.append(parts[1].as_str());
    path.append("-");
    path.append(parts[2].as_str());
    if count == 4 {
        proof {
            assert(texts(parts@)[3] == parts@[3]@);
        }
        path.append("-");
        path.append(parts[3].as_str());
    }
    path.append(".jar");
    proof {
        assert(path@ =~= spec_maven_path(artifact@)->0);
    }
    Ok(path)
}

/// The parts put together again, with `sep` between them.
pub open spec fn spec_join(parts: Seq<Seq<char>>, sep: char) -> Seq<char>
    decreases parts.len(),
{
    if parts.len() == 0 {
        Seq::<char>::empty()
    } else if parts.len() == 1 {
        parts[0]
    } else {
        spec_join(parts.drop_last(), sep) + seq![sep] + parts.last()
    }
}

/// Splitting gives at least one part, and joining the parts gives the text
/// back.
pub proof fn lemma_join_of_split(s: Seq<char>, sep: char)
    ensures
        spec_split(s, sep).len() >= 1,
        spec_join(spec_split(s, sep), sep) == s,
    decreases s.len(),
{
    if s.len() == 0 {
    } else {
        lemma_join_of_split(s.drop_last(), sep);
        let before = spec_split(s.drop_last(), sep);
        let parts = spec_split(s, sep);
        if s.last() == sep {
            assert(parts.drop_last() =~= before);
            assert(spec_join(parts, sep) =~= s.drop_last() + seq![sep] + Seq::<char>::empty());
            assert(s =~= s.drop_last() + seq![sep] + Seq::<char>::empty());
        } else {
            let grown = before.last().push(s.last());
            if before.len() == 1 {
                assert(parts[0] == grown);
                assert(before[0] == s.drop_last());
                assert(s =~= s.drop_last().push(s.last()));
            } else {
                assert(parts.drop_last() =~= before.drop_last());
                assert(spec_join(parts, sep) == spec_join(before.drop_last(), sep) + seq![sep]
                    + grown);
                assert(spec_join(before, sep) == spec_join(before.drop_last(), sep) + seq![sep]
                    + before.last());
                assert(spec_join(parts, sep) =~= spec_join(before, sep).push(s.last()));
                assert(s =~= s.drop_last().push(s.last()));
            }
        }
    }
}

/// A character that is nowhere in a text is in none of its parts.
pub proof fn lemma_split_keeps_absent(s: Seq<char>, sep: char, c: char)
    requires
        !s.contains(c),
    ensures
        forall|i: int| 0 <= i < spec_split(s, sep).len() ==> !(#[trigger] spec_split(s, sep)[i]).contains(c),
    decreases s.len(),
{
    if s.len() == 0 {
    } else {
        assert forall|k: int| 0 <= k < s.drop_last().len() implies s.drop_last()[k] != c by {
            assert(s.contains(s[k]));
        }
        lemma_split_keeps_absent(s.drop_last(), sep, c);
        lemma_join_of_split(s.drop_last(), sep);
        let before = spec_split(s.drop_last(), sep);
        let parts = spec_split(s, sep);
        assert(s.contains(s.last()));
        assert forall|i: int| 0 <= i < parts.len() implies !(#[trigger] parts[i]).contains(c) by {
            if s.last() == sep {
                if i < before.len() {
                    assert(parts[i] == before[i]);
                }
            } else {
                if i < before.len() - 1 {
                    assert(parts[i] == before[i]);
                } else {
                    assert(!before[i].contains(c));
                    if parts[i].contains(c) {
                        let k = choose|k: int| 0 <= k < parts[i].len() && parts[i][k] == c;
                        if k < before[i].len() {
                            assert(before[i][k] == c);
                            assert(before[i].contains(c));
                        }
                    }
                }
            }
        }
    }
}

/// Two texts with a separator in them are cut at the same place when their
/// tails do not hold the separator.
pub proof fn lemma_cut_at_last(x: Seq<char>, y: Seq<char>, x2: Seq<char>, y2: Seq<char>, c: char)
    requires
        x + seq![c] + y == x2 + seq![c] + y2,
        !y.contains(c),
        !y2.contains(c),
    ensures
        x == x2,
        y == y2,
{
    let left = x + seq![c] + y;
    let right = x2 + seq![c] + y2;
    assert(left.len() == x.len() + 1 + y.len());
    assert(right.len() == x2.len() + 1 + y2.len());
    if x.len() < x2.len() {
        let at = x2.len() as int;
        assert(right[at] == c);
        assert(left[at] == y[at - x.len() - 1]);
        assert(y.contains(y[at - x.len() - 1]));
    } else if x.len() > x2.len() {
        let at = x.len() as int;
        assert(left[at] == c);
        assert(right[at] == y2[at - x2.len() - 1]);
        assert(y2.contains(y2[at - x2.len() - 1]));
    } else {
        assert forall|k: int| 0 <= k < x.len() implies x[k] == x2[k] by {
            assert(left[k] == x[k]);
            assert(right[k] == x2[k]);
        }
        assert(x =~= x2);
        assert forall|k: int| 0 <= k < y.len() implies y[k] == y2[k] by {
            assert(left[x.len() + 1 + k] == y[k]);
            assert(right[x.len() + 1 + k] == y2[k]);
        }
        assert(y =~= y2);
    }
}

/// Two texts with the same head and the same whole have the same tail.
pub proof fn lemma_same_head(head: Seq<char>, a: Seq<char>, b: Seq<char>)
    requires
        head + a == head + b,
    ensures
        a == b,
{
    assert(a.len() == b.len()) by {
        assert((head + a).len() == head.len() + a.len());
        assert((head + b).len() == head.len() + b.len());
    }
    assert forall|k: int| 0 <= k < a.len() implies a[k] == b[k] by {
        assert((head + a)[head.len() + k] == a[k]);
        assert((head + b)[head.len() + k] == b[k]);
    }
    assert(a =~= b);
}

/// Two texts with the same tail and the same whole have the same head.
pub proof fn lemma_same_tail(a: Seq<char>, b: Seq<char>, tail: Seq<char>)
    requires
        a + tail == b + tail,
    ensures
        a == b,
{
    assert(a.len() == b.len()) by {
        assert((a + tail).len() == a.len() + tail.len());
        assert((b + tail).len() == b.len() + tail.len());
    }
    assert forall|k: int| 0 <= k < a.len() implies a[k] == b[k] by {
        assert((a + tail)[k] == a[k]);
        assert((b + tail)[k] == b[k]);
    }
    assert(a =~= b);
}

/// Turning dots into slashes loses nothing of a group that holds no slash.
pub proof fn lemma_group_directory_injective(g: Seq<char>, h: Seq<char>)
    requires
        !g.contains('/'),
        !h.contains('/'),
        spec_group_directory(g) == spec_group_directory(h),
    ensures
        g == h,
{
    let a = spec_group_directory(g);
    let b = spec_group_directory(h);
    assert(a.len() == g.len());
    assert(b.len() == h.len());
    assert(g.len() == h.len());
    assert forall|k: int| 0 <= k < g.len() implies g[k] == h[k] by {
        assert(g.contains(g[k]));
        assert(h.contains(h[k]));
        assert(a[k] == (if g[k] == '.' {
            '/'
        } else {
            g[k]
        }));
        assert(b[k] == (if h[k] == '.' {
            '/'
        } else {
            h[k]
        }));
    }
    assert(g =~= h);
}

/// The file name of an artifact holds no slash when its parts hold none.
pub proof fn lemma_file_without_slash(
    name: Seq<char>,
    version: Seq<char>,
    classifier: Option<Seq<char>>,
)
    requires
        !name.contains('/'),
        !version.contains('/'),
        classifier matches Some(c) ==> !c.contains('/'),
    ensures
        !maven_file(name, version, classifier).contains('/'),
{
    let file = maven_file(name, version, classifier);
    let mid = maven_classifier_part(classifier);
    assert forall|k: int| 0 <= k < mid.len() implies mid[k] != '/' by {
        match classifier {
            Some(c) => {
                if k > 0 {
                    assert(c.contains(c[k - 1]));
                }
            },
            None => {},
        }
    }
    assert forall|k: int| 0 <= k < file.len() implies file[k] != '/' by {
        let n = name.len() as int;
        let v = version.len() as int;
        let m = mid.len() as int;
        if k < n {
            assert(name.contains(name[k]));
        } else if k == n {
        } else if k < n + 1 + v {
            assert(file[k] == version[k - n - 1]);
            assert(version.contains(version[k - n - 1]));
        } else if k < n + 1 + v + m {
            assert(file[k] == mid[k - n - 1 - v]);
        } else {
        }
    }
}

/// Distinct coordinates have distinct paths, as long as they hold no slash.
///
/// With a slash in a coordinate this fails: `a/b:n:v` and `a.b:n:v` have the
/// same path.
pub proof fn lemma_maven_path_injective(a: Seq<char>, b: Seq<char>)
    requires
        !a.contains('/'),
        !b.contains('/'),
        spec_maven_path(a) is Some,
        spec_maven_path(a) == spec_maven_path(b),
    ensures
        a == b,
{
    let pa = spec_split(a, ':');
    let pb = spec_split(b, ':');
    lemma_split_keeps_absent(a, ':', '/');
    lemma_split_keeps_absent(b, ':', '/');
    lemma_join_of_split(a, ':');
    lemma_join_of_split(b, ':');
    let ca = maven_classifier(pa);
    let cb = maven_classifier(pb);
    let fa = maven_file(pa[1], pa[2], ca);
    let fb = maven_file(pb[1], pb[2], cb);
    let ga = spec_group_directory(pa[0]);
    let gb = spec_group_directory(pb[0]);
    assert(!pa[0].contains('/') && !pa[1].contains('/') && !pa[2].contains('/'));
    assert(!pb[0].contains('/') && !pb[1].contains('/') && !pb[2].contains('/'));
    assert(ca matches Some(c) ==> !c.contains('/')) by {
        if pa.len() == 4 {
            assert(!pa[3].contains('/'));
        }
    }
    assert(cb matches Some(c) ==> !c.contains('/')) by {
        if pb.len() == 4 {
            assert(!pb[3].contains('/'));
        }
    }
    lemma_file_without_slash(pa[1], pa[2], ca);
    lemma_file_without_slash(pb[1], pb[2], cb);
    let path_a = maven_directory(pa[0], pa[1], pa[2]) + fa;
    let path_b = maven_directory(pb[0], pb[1], pb[2]) + fb;
    assert(path_a == path_b);
    // The file name is what follows the last slash.
    let da = ga + seq!['/'] + pa[1] + seq!['/'] + pa[2];
    let db = gb + seq!['/'] + pb[1] + seq!['/'] + pb[2];
    assert(path_a =~= da + seq!['/'] + fa);
    assert(path_b =~= db + seq!['/'] + fb);
    lemma_cut_at_last(da, fa, db, fb, '/');
    // The version is what stands between the two slashes before it.
    let na = ga + seq!['/'] + pa[1];
    let nb = gb + seq!['/'] + pb[1];
    assert(da =~= na + seq!['/'] + pa[2]);
    assert(db =~= nb + seq!['/'] + pb[2]);
    lemma_cut_at_last(na, pa[2], nb, pb[2], '/');
    // The name likewise, and the group is the rest.
    lemma_cut_at_last(ga, pa[1], gb, pb[1], '/');
    lemma_group_directory_injective(pa[0], pb[0]);
    // In the file name, what follows name and version tells the classifier.
    let head = pa[1] + seq!['-'] + pa[2];
    let jar = seq!['.', 'j', 'a', 'r'];
    let ta = maven_classifier_part(ca) + jar;
    let tb = maven_classifier_part(cb) + jar;
    assert(fa =~= head + ta);
    assert(fb =~= head + tb);
    lemma_same_head(head, ta, tb);
    lemma_same_tail(maven_classifier_part(ca), maven_classifier_part(cb), jar);
    if pa.len() == 4 && pb.len() == 4 {
        lemma_same_head(seq!['-'], pa[3], pb[3]);
    } else if pa.len() == 4 {
        assert(maven_classifier_part(ca).len() > 0);
        assert(maven_classifier_part(cb).len() == 0);
    } else if pb.len() == 4 {
        assert(maven_classifier_part(cb).len() > 0);
        assert(maven_classifier_part(ca).len() == 0);
    }
    assert(pa.len() == pb.len());
    assert(pa =~= pb);
}

} // verus!

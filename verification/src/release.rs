use vstd::prelude::*;

use crate::text::{chars_of, concat, owned, trim, trimmed};

verus! {

/// `c` is one of the ASCII digits `0`..=`9`.
pub open spec fn is_digit(c: char) -> bool {
    '0' <= c && c <= '9'
}

/// The maximal runs of ASCII digits in `s`, in order: what splitting at
/// every non-digit and dropping empty pieces leaves.
pub open spec fn digit_runs(s: Seq<char>) -> Seq<Seq<char>>
    decreases s.len(),
{
    if s.len() == 0 {
        Seq::empty()
    } else {
        let r = digit_runs(s.drop_last());
        let c = s.last();
        if !is_digit(c) {
            r
        } else if s.len() >= 2 && is_digit(s[s.len() - 2]) {
            r.update(r.len() - 1, r.last().push(c))
        } else {
            r.push(seq![c])
        }
    }
}

/// The number that a run of ASCII digits spells.
pub open spec fn digits_value(d: Seq<char>) -> nat
    decreases d.len(),
{
    if d.len() == 0 {
        0
    } else {
        digits_value(d.drop_last()) * 10 + (d.last() as nat - '0' as nat) as nat
    }
}

/// A run of digits read as a `u64`, or 0 when it does not fit (the parse
/// fails and 0 is used instead).
pub open spec fn part_value(d: Seq<char>) -> u64 {
    if digits_value(d) <= u64::MAX {
        digits_value(d) as u64
    } else {
        0
    }
}

/// The numeric parts of a version text: every run of digits, read as a
/// number.
pub open spec fn version_numbers(s: Seq<char>) -> Seq<u64> {
    digit_runs(s).map_values(|d: Seq<char>| part_value(d))
}

proof fn lemma_digit_runs_nonempty(s: Seq<char>)
    requires
        s.len() > 0,
        is_digit(s.last()),
    ensures
        digit_runs(s).len() > 0,
    decreases s.len(),
{
    if s.len() >= 2 && is_digit(s[s.len() - 2]) {
        let t = s.drop_last();
        assert(t.last() == s[s.len() - 2]);
        lemma_digit_runs_nonempty(t);
    }
}

/// The numeric parts of a version text.
pub fn version_parts(version: &str) -> (r: Vec<u64>)
    ensures
        r@ == version_numbers(version@),
{
    let cs = chars_of(version);
    let mut done: Vec<u64> = Vec::new();
    let mut in_run = false;
    let mut value: u64 = 0;
    let mut overflow = false;
    let ghost mut run: Seq<char> = Seq::empty();
    let mut i: usize = 0;
    while i < cs.len()
        invariant
            cs@ == version@,
            i <= cs.len(),
            in_run == (i > 0 && is_digit(version@[i - 1])),
            in_run ==> digit_runs(version@.take(i as int)) == digit_runs(version@.take(
                i as int,
            )).drop_last().push(run),
            in_run ==> digit_runs(version@.take(i as int)).len() > 0,
            in_run ==> done@ == digit_runs(version@.take(i as int)).drop_last().map_values(
                |d: Seq<char>| part_value(d),
            ),
            !in_run ==> done@ == version_numbers(version@.take(i as int)),
            in_run ==> (overflow <==> digits_value(run) > u64::MAX),
            in_run && !overflow ==> value == digits_value(run),
        decreases cs.len() - i,
    {
        let c = cs[i];
        let ghost prev = version@.take(i as int);
        let ghost t = version@.take(i + 1);
        proof {
            assert(t.drop_last() =~= prev);
            assert(t.last() == c);
            if i > 0 {
                assert(t[t.len() - 2] == version@[i - 1]);
            }
        }
        let digit = '0' <= c && c <= '9';
        if digit {
            let d: u64 = (c as u32 - '0' as u32) as u64;
            if in_run {
                proof {
                    let r = digit_runs(prev);
                    assert(digit_runs(t) == r.update(r.len() - 1, r.last().push(c)));
                    assert(r.last() == run);
                    assert(run.push(c).drop_last() =~= run);
                    assert(digits_value(run.push(c)) == digits_value(run) * 10 + d);
                    assert(r.update(r.len() - 1, run.push(c)).drop_last() =~= r.drop_last());
                    run = run.push(c);
                }
                if !overflow {
                    if value > (u64::MAX - d) / 10 {
                        overflow = true;
                        assert(digits_value(run) > u64::MAX) by (nonlinear_arith)
                            requires
                                digits_value(run) == value * 10 + d,
                                value > (u64::MAX - d) / 10,
                                d <= 9,
                        ;
                    } else {
                        assert(value * 10 + d <= u64::MAX) by (nonlinear_arith)
                            requires
                                value <= (u64::MAX - d) / 10,
                                d <= 9,
                        ;
                        value = value * 10 + d;
                    }
                } else {
                    assert(digits_value(run) > u64::MAX) by (nonlinear_arith)
                        requires
                            digits_value(run) == digits_value(run.drop_last()) * 10 + d,
                            digits_value(run.drop_last()) > u64::MAX,
                    ;
                }
            } else {
                proof {
                    let r = digit_runs(prev);
                    assert(digit_runs(t) == r.push(seq![c]));
                    assert(digit_runs(t).drop_last() =~= r);
                    run = seq![c];
                    assert(run.drop_last() =~= Seq::<char>::empty());
                    assert(digits_value(Seq::<char>::empty()) == 0);
                    assert(digits_value(run) == d);
                }
                in_run = true;
                overflow = false;
                value = d;
            }
        } else {
            if in_run {
                let part = if overflow {
                    0
                } else {
                    value
                };
                let ghost before = done@;
                done.push(part);
                proof {
                    let r = digit_runs(prev);
                    assert(digit_runs(t) == r);
                    assert(r =~= r.drop_last().push(run));
                    assert(part == part_value(run));
                    assert(done@ =~= r.map_values(|d: Seq<char>| part_value(d)));
                }
            } else {
                assert(digit_runs(t) == digit_runs(prev));
            }
            in_run = false;
        }
        i = i + 1;
    }
    assert(version@.take(cs.len() as int) =~= version@);
    if in_run {
        let part = if overflow {
            0
        } else {
            value
        };
        done.push(part);
        proof {
            let r = digit_runs(version@);
            assert(r =~= r.drop_last().push(run));
            assert(done@ =~= r.map_values(|d: Seq<char>| part_value(d)));
        }
    }
    done
}

/// Part `i` of a version, 0 past its end.
pub open spec fn part_at(p: Seq<u64>, i: int) -> int {
    if 0 <= i < p.len() {
        p[i] as int
    } else {
        0
    }
}

/// Version `a` is newer than version `b`: at the first part where they
/// differ (missing parts counting as 0), `a`'s is larger.
pub open spec fn newer(a: Seq<u64>, b: Seq<u64>) -> bool {
    exists|i: int|
        0 <= i < a.len() + b.len() && part_at(a, i) > part_at(b, i) && forall|k: int|
            0 <= k < i ==> #[trigger] part_at(a, k) == part_at(b, k)
}

/// Whether the version `latest` is newer than the version `current`,
/// comparing their numeric parts in order.
pub fn is_newer_version(latest: &str, current: &str) -> (r: bool)
    ensures
        r == newer(version_numbers(latest@), version_numbers(current@)),
{
    let a = version_parts(latest);
    let b = version_parts(current);
    let n = if a.len() > b.len() {
        a.len()
    } else {
        b.len()
    };
    let mut i: usize = 0;
    while i < n
        invariant
            n == if a.len() > b.len() {
                a.len()
            } else {
                b.len()
            },
            i <= n,
            a@ == version_numbers(latest@),
            b@ == version_numbers(current@),
            forall|k: int| 0 <= k < i ==> #[trigger] part_at(a@, k) == part_at(b@, k),
        decreases n - i,
    {
        let x: u64 = if i < a.len() {
            a[i]
        } else {
            0
        };
        let y: u64 = if i < b.len() {
            b[i]
        } else {
            0
        };
        assert(x == part_at(a@, i as int) && y == part_at(b@, i as int));
        if x != y {
            if x < y {
                assert forall|j: int|
                    0 <= j < a@.len() + b@.len() && part_at(a@, j) > part_at(b@, j) implies !(
                forall|k: int| 0 <= k < j ==> #[trigger] part_at(a@, k) == part_at(b@, k)) by {
                    if j > i {
                        assert(part_at(a@, i as int) != part_at(b@, i as int));
                    }
                }
            }
            if x > y {
                assert(0 <= i < a@.len() + b@.len() && part_at(a@, i as int) > part_at(
                    b@,
                    i as int,
                ) && forall|k: int| 0 <= k < i ==> #[trigger] part_at(a@, k) == part_at(b@, k));
                assert(newer(a@, b@));
                return true;
            }
            return false;
        }
        i = i + 1;
    }
    assert forall|j: int|
        0 <= j < a@.len() + b@.len() && part_at(a@, j) > part_at(b@, j) implies !(forall|k: int|
        0 <= k < j ==> #[trigger] part_at(a@, k) == part_at(b@, k)) by {
        if j < n {
            assert(part_at(a@, j) == part_at(b@, j));
        }
    }
    false
}

/// `s` without its leading `v` characters (`str::trim_start_matches('v')`).
pub open spec fn without_leading_v(s: Seq<char>) -> Seq<char>
    decreases s.len(),
{
    if s.len() > 0 && s[0] == 'v' {
        without_leading_v(s.drop_first())
    } else {
        s
    }
}

/// A release tag as a version: trimmed, leading `v`s dropped.
pub open spec fn normalized_version(tag: Seq<char>) -> Seq<char> {
    without_leading_v(trimmed(tag))
}

/// A release tag as a version, such as `1.2.0` for `v1.2.0`.
pub fn normalize_version(version: &str) -> (r: String)
    ensures
        r@ == normalized_version(version@),
{
    let t = trim(version);
    let cs = chars_of(t.as_str());
    let mut i: usize = 0;
    assert(t@.skip(0) =~= t@);
    while i < cs.len() && cs[i] == 'v'
        invariant
            cs@ == t@,
            i <= cs.len(),
            without_leading_v(t@) == without_leading_v(t@.skip(i as int)),
        decreases cs.len() - i,
    {
        assert(t@.skip(i as int).drop_first() =~= t@.skip(i + 1));
        i = i + 1;
    }
    let mut out = String::new();
    let mut k: usize = i;
    while k < cs.len()
        invariant
            cs@ == t@,
            i <= k <= cs.len(),
            out@ == t@.subrange(i as int, k as int),
        decreases cs.len() - k,
    {
        crate::text::push_char(&mut out, cs[k]);
        assert(t@.subrange(i as int, k as int).push(t@[k as int]) =~= t@.subrange(
            i as int,
            k + 1,
        ));
        k = k + 1;
    }
    assert(t@.subrange(i as int, cs.len() as int) =~= t@.skip(i as int));
    out
}

/// No version is newer than itself.
pub proof fn law_newer_irreflexive(a: Seq<u64>)
    ensures
        !newer(a, a),
{
}

/// Of two versions, at most one is newer than the other.
pub proof fn law_newer_asymmetric(a: Seq<u64>, b: Seq<u64>)
    requires
        newer(a, b),
    ensures
        !newer(b, a),
{
    let i = choose|i: int|
        0 <= i < a.len() + b.len() && part_at(a, i) > part_at(b, i) && forall|k: int|
            0 <= k < i ==> #[trigger] part_at(a, k) == part_at(b, k);
    if newer(b, a) {
        let j = choose|j: int|
            0 <= j < b.len() + a.len() && part_at(b, j) > part_at(a, j) && forall|k: int|
                0 <= k < j ==> #[trigger] part_at(b, k) == part_at(a, k);
        if i < j {
            assert(part_at(b, i) == part_at(a, i));
        } else if j < i {
            assert(part_at(a, j) == part_at(b, j));
        }
    }
}

/// Newer-than is transitive.
pub proof fn law_newer_transitive(a: Seq<u64>, b: Seq<u64>, c: Seq<u64>)
    requires
        newer(a, b),
        newer(b, c),
    ensures
        newer(a, c),
{
    let i = choose|i: int|
        0 <= i < a.len() + b.len() && part_at(a, i) > part_at(b, i) && forall|k: int|
            0 <= k < i ==> #[trigger] part_at(a, k) == part_at(b, k);
    let j = choose|j: int|
        0 <= j < b.len() + c.len() && part_at(b, j) > part_at(c, j) && forall|k: int|
            0 <= k < j ==> #[trigger] part_at(b, k) == part_at(c, k);
    let m = if i < j {
        i
    } else {
        j
    };
    assert forall|k: int| 0 <= k < m implies #[trigger] part_at(a, k) == part_at(c, k) by {
        assert(part_at(a, k) == part_at(b, k));
        assert(part_at(b, k) == part_at(c, k));
    }
    if i < j {
        assert(part_at(b, i) == part_at(c, i));
    } else if j < i {
        assert(part_at(a, j) == part_at(b, j));
    }
    assert(part_at(a, m) > part_at(c, m));
    if m >= a.len() + c.len() {
        assert(part_at(a, m) == 0);
    }
    assert(0 <= m < a.len() + c.len() && part_at(a, m) > part_at(c, m) && forall|k: int|
        0 <= k < m ==> #[trigger] part_at(a, k) == part_at(c, k));
}

/// Versions whose parts agree, missing parts counting as 0 (such as `1.0`
/// and `1.0.0`), compare alike.
pub proof fn law_newer_ignores_trailing_zeros(a: Seq<u64>, a2: Seq<u64>, b: Seq<u64>)
    requires
        forall|i: int| 0 <= i ==> #[trigger] part_at(a, i) == part_at(a2, i),
    ensures
        newer(a, b) == newer(a2, b),
        newer(b, a) == newer(b, a2),
{
    if newer(a, b) {
        let i = choose|i: int|
            0 <= i < a.len() + b.len() && part_at(a, i) > part_at(b, i) && forall|k: int|
                0 <= k < i ==> #[trigger] part_at(a, k) == part_at(b, k);
        assert(part_at(a2, i) == part_at(a, i));
        if i >= a2.len() + b.len() {
            assert(part_at(a2, i) == 0);
        }
        assert forall|k: int| 0 <= k < i implies #[trigger] part_at(a2, k) == part_at(b, k) by {
            assert(part_at(a, k) == part_at(a2, k));
        }
    }
    if newer(a2, b) {
        let i = choose|i: int|
            0 <= i < a2.len() + b.len() && part_at(a2, i) > part_at(b, i) && forall|k: int|
                0 <= k < i ==> #[trigger] part_at(a2, k) == part_at(b, k);
        assert(part_at(a2, i) == part_at(a, i));
        if i >= a.len() + b.len() {
            assert(part_at(a, i) == 0);
        }
        assert forall|k: int| 0 <= k < i implies #[trigger] part_at(a, k) == part_at(b, k) by {
            assert(part_at(a, k) == part_at(a2, k));
        }
    }
    if newer(b, a) {
        let i = choose|i: int|
            0 <= i < b.len() + a.len() && part_at(b, i) > part_at(a, i) && forall|k: int|
                0 <= k < i ==> #[trigger] part_at(b, k) == part_at(a, k);
        assert(part_at(a2, i) == part_at(a, i));
        if i >= b.len() + a2.len() {
            assert(part_at(b, i) == 0);
        }
        assert forall|k: int| 0 <= k < i implies #[trigger] part_at(b, k) == part_at(a2, k) by {
            assert(part_at(a, k) == part_at(a2, k));
        }
    }
    if newer(b, a2) {
        let i = choose|i: int|
            0 <= i < b.len() + a2.len() && part_at(b, i) > part_at(a2, i) && forall|k: int|
                0 <= k < i ==> #[trigger] part_at(b, k) == part_at(a2, k);
        assert(part_at(a2, i) == part_at(a, i));
        if i >= b.len() + a.len() {
            assert(part_at(b, i) == 0);
        }
        assert forall|k: int| 0 <= k < i implies #[trigger] part_at(b, k) == part_at(a, k) by {
            assert(part_at(a, k) == part_at(a2, k));
        }
    }
}

/// The outcome of a check for a newer release.
#[derive(Clone, Debug, PartialEq, Eq)]
pub struct UpdateInfo {
    pub current_version: String,
    pub latest_version: String,
    pub has_update: bool,
    pub release_url: String,
    pub message: String,
}

/// The latest release as the release feed describes it.
#[derive(Clone, Debug, PartialEq, Eq)]
pub struct GitHubRelease {
    pub tag_name: String,
    pub html_url: String,
    pub draft: bool,
    pub prerelease: bool,
}

/// Where the releases are listed.
pub open spec fn releases_page() -> Seq<char> {
    "https://github.com/Valiant-Cat/VviTools/releases"@
}

/// The answer to an update check, given the running version and the latest
/// release (`None` when the feed has no release yet): with no release, the
/// running version is the latest; a draft or pre-release is no stable
/// update; otherwise the release's version is compared with the running
/// one.
pub open spec fn is_update_answer(
    current: Seq<char>,
    release: Option<GitHubRelease>,
    r: Result<UpdateInfo, String>,
) -> bool {
    match release {
        None => r matches Ok(info) && {
            &&& info.current_version@ == current
            &&& info.latest_version@ == current
            &&& !info.has_update
            &&& info.release_url@ == releases_page()
            &&& info.message@ == "暂无发布版本"@
        },
        Some(rel) => if rel.draft || rel.prerelease {
            r matches Err(msg) && msg@ == "暂无稳定更新版本"@
        } else {
            r matches Ok(info) && {
                let latest = normalized_version(rel.tag_name@);
                let has_update = newer(version_numbers(latest), version_numbers(current));
                &&& info.current_version@ == current
                &&& info.latest_version@ == latest
                &&& info.has_update == has_update
                &&& info.release_url == rel.html_url
                &&& info.message@ == if has_update {
                    "发现新版本 "@ + latest
                } else {
                    "已是最新版本"@
                }
            }
        },
    }
}

/// Answers an update check from the running version and the latest
/// release.
pub fn update_info_from_release(current_version: &str, release: Option<GitHubRelease>) -> (r:
    Result<UpdateInfo, String>)
    ensures
        is_update_answer(current_version@, release, r),
{
    match release {
        None => Ok(
            UpdateInfo {
                current_version: owned(current_version),
                latest_version: owned(current_version),
                has_update: false,
                release_url: owned("https://github.com/Valiant-Cat/VviTools/releases"),
                message: owned("暂无发布版本"),
            },
        ),
        Some(rel) => {
            if rel.draft || rel.prerelease {
                return Err(owned("暂无稳定更新版本"));
            }
            let latest_version = normalize_version(rel.tag_name.as_str());
            let has_update = is_newer_version(latest_version.as_str(), current_version);
            let message = if has_update {
                concat("发现新版本 ", latest_version.as_str())
            } else {
                owned("已是最新版本")
            };
            Ok(
                UpdateInfo {
                    current_version: owned(current_version),
                    latest_version,
                    has_update,
                    release_url: rel.html_url,
                    message,
                },
            )
        },
    }
}

} // verus!

//! Finding the report attachment in a message's body structure.
use vstd::prelude::*;
use crate::text::{decimal, digit_char, lower_of, lowercase, push_char, push_decimal, same_text};
use crate::types::ReportFileType;

verus! {

/// A message's MIME structure, as the mailbox describes it.
pub enum BodyStructure {
    /// A container whose parts are numbered from 1, in order.
    Multipart { bodies: Vec<BodyStructure> },
    /// A single non-text part with its MIME type and subtype.
    Basic { ty: String, subtype: String },
    /// An embedded message; never searched.
    Message,
    /// A text part; never a report.
    Text,
}

/// The archive kind of a lower-cased MIME type and subtype.
pub open spec fn kind_of(ty: Seq<char>, subtype: Seq<char>) -> Option<ReportFileType> {
    if ty == "application"@ && subtype == "gzip"@ {
        Some(ReportFileType::Gzip)
    } else if ty == "application"@ && subtype == "zip"@ {
        Some(ReportFileType::Zip)
    } else {
        None
    }
}

/// The archive kind of a leaf, compared without regard to case.
pub open spec fn leaf_kind(ty: Seq<char>, subtype: Seq<char>) -> Option<ReportFileType> {
    kind_of(lower_of(ty), lower_of(subtype))
}

pub open spec fn width(node: BodyStructure) -> nat {
    match node {
        BodyStructure::Multipart { bodies } => bodies@.len(),
        _ => 0,
    }
}

/// The first report attachment in depth-first, left-to-right order, with its
/// path relative to `node` (empty when `node` is the attachment itself).
pub open spec fn locate_spec(node: BodyStructure) -> Option<(Seq<usize>, ReportFileType)>
    decreases node, width(node) + 1,
{
    match node {
        BodyStructure::Multipart { bodies } => locate_from(node, 0),
        BodyStructure::Basic { ty, subtype } => match leaf_kind(ty@, subtype@) {
            Some(k) => Some((Seq::empty(), k)),
            None => None,
        },
        _ => None,
    }
}

/// The first report attachment among the parts of `node` from index `i` on.
pub open spec fn locate_from(node: BodyStructure, i: nat) -> Option<(Seq<usize>, ReportFileType)>
    decreases node, width(node) - i,
{
    match node {
        BodyStructure::Multipart { bodies } => if i < bodies@.len() {
            match locate_spec(bodies@[i as int]) {
                Some((p, k)) => Some((seq![(i + 1) as usize] + p, k)),
                None => locate_from(node, i + 1),
            }
        } else {
            None
        },
        _ => None,
    }
}

/// The part address of a path relative to the message root: a root that is
/// itself the attachment is part 1.
pub open spec fn address_of(rel: Seq<usize>) -> Seq<usize> {
    if rel.len() == 0 {
        seq![1usize]
    } else {
        rel
    }
}

/// The dotted text of a part address.
pub open spec fn dotted(p: Seq<usize>) -> Seq<char>
    decreases p.len(),
{
    if p.len() == 0 {
        Seq::empty()
    } else if p.len() == 1 {
        decimal(p[0] as nat)
    } else {
        dotted(p.drop_last()) + seq!['.'] + decimal(p.last() as nat)
    }
}

/// The archive kind of a leaf whose type and subtype are already lower-cased.
pub fn kind_of_lowered(ty: &str, subtype: &str) -> (r: Option<ReportFileType>)
    ensures
        r == kind_of(ty@, subtype@),
{
    proof {
        reveal_strlit("application");
        reveal_strlit("gzip");
        reveal_strlit("zip");
    }
    if same_text(ty, "application") {
        if same_text(subtype, "gzip") {
            return Some(ReportFileType::Gzip);
        } else if same_text(subtype, "zip") {
            return Some(ReportFileType::Zip);
        }
    }
    None
}

/// The archive kind of a leaf, compared without regard to case.
pub fn classify(ty: &str, subtype: &str) -> (r: Option<ReportFileType>)
    ensures
        r == leaf_kind(ty@, subtype@),
{
    let t = lowercase(ty);
    let s = lowercase(subtype);
    kind_of_lowered(t.as_str(), s.as_str())
}

/// Searches `node` for the first report attachment; the path is relative to `node`.
pub fn locate_relative(node: &BodyStructure) -> (r: Option<(Vec<usize>, ReportFileType)>)
    ensures
        match r {
            Some((p, k)) => locate_spec(*node) == Some((p@, k)),
            None => locate_spec(*node) is None,
        },
    decreases node,
{
    match node {
        BodyStructure::Multipart { bodies } => {
            let mut i: usize = 0;
            while i < bodies.len()
                invariant
                    *node == (BodyStructure::Multipart { bodies: *bodies }),
                    i <= bodies@.len(),
                    locate_spec(*node) == locate_from(*node, i as nat),
                decreases bodies@.len() - i,
            {
                proof {
                    vstd::std_specs::vec::axiom_vec_index_decreases(*bodies, i as int);
                }
                match locate_relative(&bodies[i]) {
                    Some((rest, kind)) => {
                        let mut p: Vec<usize> = Vec::new();
                        p.push(i + 1);
                        let ghost tail = rest@;
                        let mut rest = rest;
                        p.append(&mut rest);
                        assert(p@ =~= seq![(i + 1) as usize] + tail);
                        assert(locate_from(*node, i as nat) == Some((p@, kind)));
                        return Some((p, kind));
                    },
                    None => {},
                }
                i += 1;
            }
            None
        },
        BodyStructure::Basic { ty, subtype } => match classify(ty.as_str(), subtype.as_str()) {
            Some(k) => Some((Vec::new(), k)),
            None => None,
        },
        BodyStructure::Message => None,
        BodyStructure::Text => None,
    }
}

/// Finds the report attachment of a message and its part address.
pub fn locate(root: &BodyStructure) -> (r: Option<(Vec<usize>, ReportFileType)>)
    ensures
        match r {
            Some((p, k)) => exists|rel: Seq<usize>|
                locate_spec(*root) == Some((rel, k)) && p@ == address_of(rel),
            None => locate_spec(*root) is None,
        },
{
    match locate_relative(root) {
        Some((p, k)) => {
            if p.len() == 0 {
                let mut one: Vec<usize> = Vec::new();
                one.push(1);
                assert(one@ =~= address_of(p@));
                assert(locate_spec(*root) == Some((p@, k)) && one@ == address_of(p@));
                Some((one, k))
            } else {
                assert(locate_spec(*root) == Some((p@, k)) && p@ == address_of(p@));
                Some((p, k))
            }
        },
        None => None,
    }
}

/// Appends the dotted text of a part address.
pub fn push_dotted(s: &mut String, p: &Vec<usize>)
    ensures
        final(s)@ == old(s)@ + dotted(p@),
{
    let mut i: usize = 0;
    while i < p.len()
        invariant
            i <= p@.len(),
            s@ == old(s)@ + dotted(p@.take(i as int)),
        decreases p@.len() - i,
    {
        let ghost before = s@;
        if i > 0 {
            push_char(s, '.');
        }
        push_decimal(s, p[i]);
        proof {
            let t = p@.take(i + 1);
            assert(t.drop_last() =~= p@.take(i as int));
            if i == 0 {
                assert(dotted(p@.take(0)) =~= Seq::empty());
            }
            assert(s@ =~= old(s)@ + dotted(t));
        }
        i += 1;
    }
    assert(p@.take(p@.len() as int) =~= p@);
}

/// The dotted text of a part address, such as `2.1`.
pub fn part_address_text(p: &Vec<usize>) -> (r: String)
    ensures
        r@ == dotted(p@),
{
    let mut s = String::new();
    push_dotted(&mut s, p);
    assert(s@ =~= dotted(p@));
    s
}

/// The text address of an attachment found under a part whose dotted
/// address is `prefix` (empty for the message root).
pub open spec fn address_text(prefix: Seq<char>, rel: Seq<usize>) -> Seq<char> {
    if rel.len() == 0 {
        if prefix.len() == 0 {
            "1"@
        } else {
            prefix
        }
    } else if prefix.len() == 0 {
        dotted(rel)
    } else {
        prefix + seq!['.'] + dotted(rel)
    }
}

/// Searches a body structure for a report file, returning its dotted part
/// address (below `prefix`) and its archive kind.
pub fn find_report(body_structure: &BodyStructure, prefix: String) -> (r: Option<(String, ReportFileType)>)
    ensures
        match r {
            Some((a, k)) => exists|rel: Seq<usize>|
                locate_spec(*body_structure) == Some((rel, k)) && a@ == address_text(prefix@, rel),
            None => locate_spec(*body_structure) is None,
        },
{
    match locate_relative(body_structure) {
        Some((rel, k)) => {
            let mut a = prefix;
            if rel.len() == 0 {
                if a.unicode_len() == 0 {
                    push_char(&mut a, '1');
                    proof {
                        reveal_strlit("1");
                        assert(a@ =~= "1"@);
                    }
                }
            } else {
                if a.unicode_len() > 0 {
                    push_char(&mut a, '.');
                }
                push_dotted(&mut a, &rel);
                assert(a@ =~= address_text(prefix@, rel@));
            }
            assert(locate_spec(*body_structure) == Some((rel@, k)) && a@ == address_text(prefix@, rel@));
            Some((a, k))
        },
        None => None,
    }
}

/// The state after reading a prefix of a dotted address: the components
/// already closed, the value and length of the one being read, and whether
/// the prefix is well formed so far. A component must fit a `usize`.
pub open spec fn scan(s: Seq<char>) -> (Seq<usize>, int, nat, bool)
    decreases s.len(),
{
    if s.len() == 0 {
        (Seq::empty(), 0, 0, true)
    } else {
        let (done, cur, n, ok) = scan(s.drop_last());
        let c = s.last();
        if !ok {
            (done, cur, n, false)
        } else if c == '.' {
            if n == 0 {
                (done, cur, n, false)
            } else {
                (done.push(cur as usize), 0, 0, true)
            }
        } else if '0' <= c && c <= '9' {
            let v = cur * 10 + (c as int - 48);
            if v > usize::MAX {
                (done, cur, n, false)
            } else {
                (done, v, n + 1, true)
            }
        } else {
            (done, cur, n, false)
        }
    }
}

/// The components of a dotted part address: non-empty runs of decimal
/// digits separated by single dots.
pub open spec fn parse_address(s: Seq<char>) -> Option<Seq<usize>> {
    let (done, cur, n, ok) = scan(s);
    if ok && n > 0 {
        Some(done.push(cur as usize))
    } else {
        None
    }
}

/// Reads a dotted part address such as `2.1` into its components.
pub fn parse_part_address(s: &str) -> (r: Option<Vec<usize>>)
    ensures
        match r {
            Some(v) => parse_address(s@) == Some(v@),
            None => parse_address(s@) is None,
        },
{
    let len = s.unicode_len();
    let mut done: Vec<usize> = Vec::new();
    let mut cur: usize = 0;
    let mut n: usize = 0;
    let mut i: usize = 0;
    while i < len
        invariant
            len == s@.len(),
            i <= len,
            n <= i,
            scan(s@.take(i as int)) == (done@, cur as int, n as nat, true),
        decreases len - i,
    {
        let c = s.get_char(i);
        proof {
            assert(s@.take(i + 1).drop_last() =~= s@.take(i as int));
        }
        if c == '.' {
            if n == 0 {
                proof { lemma_scan_fails_on(s@, i as nat); }
                return None;
            }
            done.push(cur);
            cur = 0;
            n = 0;
        } else if '0' <= c && c <= '9' {
            let d: usize = (c as u32 - 48) as usize;
            if cur > (usize::MAX - d) / 10 {
                proof { lemma_scan_fails_on(s@, i as nat); }
                return None;
            }
            cur = cur * 10 + d;
            n = n + 1;
        } else {
            proof { lemma_scan_fails_on(s@, i as nat); }
            return None;
        }
        i += 1;
    }
    assert(s@.take(len as int) =~= s@);
    if n == 0 {
        return None;
    }
    done.push(cur);
    Some(done)
}

/// Once a prefix is malformed, so is every longer text.
proof fn lemma_scan_fails_on(s: Seq<char>, i: nat)
    requires
        i < s.len(),
        !scan(s.take((i + 1) as int)).3,
    ensures
        parse_address(s) is None,
    decreases s.len() - i,
{
    if i + 1 < s.len() {
        assert(s.take((i + 2) as int).drop_last() =~= s.take((i + 1) as int));
        lemma_scan_fails_on(s, i + 1);
    } else {
        assert(s.take((i + 1) as int) =~= s);
    }
}

proof fn lemma_decimal_no_dot(n: nat)
    ensures
        forall|j: int| 0 <= j < decimal(n).len() ==> '0' <= #[trigger] decimal(n)[j] <= '9',
        decimal(n).len() > 0,
    decreases n,
{
    if n >= 10 {
        lemma_decimal_no_dot(n / 10);
    }
}

proof fn lemma_digit_value(d: nat)
    requires
        d < 10,
    ensures
        '0' <= digit_char(d) <= '9',
        digit_char(d) != '.',
        digit_char(d) as int - 48 == d,
{
}

/// Reading the decimal text of `n` after a closed component yields `n`.
proof fn lemma_scan_decimal(x: Seq<char>, done: Seq<usize>, n: nat)
    requires
        scan(x) == (done, 0int, 0nat, true),
        n <= usize::MAX,
    ensures
        scan(x + decimal(n)) == (done, n as int, decimal(n).len(), true),
    decreases n,
{
    let y = x + decimal(n);
    assert(y.drop_last() =~= x + decimal(n).drop_last());
    if n < 10 {
        assert(decimal(n).drop_last() =~= Seq::<char>::empty());
        assert(x + Seq::<char>::empty() =~= x);
        lemma_digit_value(n);
    } else {
        lemma_scan_decimal(x, done, n / 10);
        assert(decimal(n).drop_last() =~= decimal(n / 10));
        let d = n % 10;
        lemma_digit_value(d);
        assert((n / 10) * 10 + d == n);
    }
}

/// Reading the dotted text of a non-empty address closes all but its last component.
proof fn lemma_scan_dotted(p: Seq<usize>)
    requires
        p.len() > 0,
    ensures
        scan(dotted(p)) == (p.drop_last(), p.last() as int, decimal(p.last() as nat).len(), true),
    decreases p.len(),
{
    if p.len() == 1 {
        lemma_scan_decimal(Seq::empty(), Seq::empty(), p[0] as nat);
        assert(Seq::<char>::empty() + decimal(p[0] as nat) =~= dotted(p));
        assert(p.drop_last() =~= Seq::<usize>::empty());
    } else {
        let q = p.drop_last();
        lemma_scan_dotted(q);
        lemma_decimal_no_dot(q.last() as nat);
        let x = dotted(q) + seq!['.'];
        assert(x.drop_last() =~= dotted(q));
        assert(q.drop_last().push(q.last()) =~= q);
        lemma_scan_decimal(x, q, p.last() as nat);
        assert(x + decimal(p.last() as nat) =~= dotted(p));
    }
}

/// Every component of a located address is at least 1.
pub open spec fn positive(p: Seq<usize>) -> bool {
    forall|j: int| 0 <= j < p.len() ==> p[j] >= 1
}

proof fn lemma_located_positive(node: BodyStructure)
    ensures
        locate_spec(node) matches Some((p, k)) ==> positive(p),
    decreases node, width(node) + 1,
{
    if let BodyStructure::Multipart { bodies } = node {
        lemma_located_from_positive(node, 0);
    }
}

proof fn lemma_located_from_positive(node: BodyStructure, i: nat)
    ensures
        locate_from(node, i) matches Some((p, k)) ==> positive(p),
    decreases node, width(node) - i,
{
    if let BodyStructure::Multipart { bodies } = node {
        if i < bodies@.len() {
            vstd::std_specs::vec::axiom_vec_index_decreases(bodies, i as int);
            vstd::std_specs::vec::axiom_spec_len(&bodies);
            assert(bodies.len() == bodies@.len());
            lemma_located_positive(bodies@[i as int]);
            lemma_located_from_positive(node, i + 1);
            if let Some((p, k)) = locate_spec(bodies@[i as int]) {
                let q = seq![(i + 1) as usize] + p;
                assert forall|j: int| 0 <= j < q.len() implies q[j] >= 1 by {
                    if j > 0 {
                        assert(q[j] == p[j - 1]);
                    }
                }
            }
        }
    }
}

/// Whatever `locate` finds is addressed by components of at least 1, and the
/// dotted text of that address parses back to the same components.
pub proof fn lemma_located_address_round_trips(root: BodyStructure)
    ensures
        locate_spec(root) matches Some((rel, k)) ==> positive(address_of(rel))
            && parse_address(dotted(address_of(rel))) == Some(address_of(rel)),
{
    lemma_located_positive(root);
    if let Some((rel, k)) = locate_spec(root) {
        let a = address_of(rel);
        lemma_scan_dotted(a);
        assert(a.drop_last().push(a.last()) =~= a);
    }
}

/// `locate` returns the first matching part in depth-first, left-to-right
/// order: when parts before `k` hold no report attachment and part `k`
/// does, the address starts with `k + 1`, whatever the later parts hold.
pub proof fn lemma_first_match_wins(bodies: Vec<BodyStructure>, k: nat)
    requires
        k < bodies@.len(),
        forall|j: int| 0 <= j < k ==> locate_spec(#[trigger] bodies@[j]) is None,
        locate_spec(bodies@[k as int]) is Some,
    ensures
        locate_spec(BodyStructure::Multipart { bodies }) == Some((
            seq![(k + 1) as usize] + locate_spec(bodies@[k as int])->Some_0.0,
            locate_spec(bodies@[k as int])->Some_0.1,
        )),
{
    let node = BodyStructure::Multipart { bodies };
    lemma_skip_misses(node, 0, k);
}

proof fn lemma_skip_misses(node: BodyStructure, i: nat, k: nat)
    requires
        node matches BodyStructure::Multipart { bodies } && k < bodies@.len()
            && forall|j: int| 0 <= j < k ==> locate_spec(#[trigger] bodies@[j]) is None,
        i <= k,
    ensures
        locate_from(node, i) == locate_from(node, k),
    decreases k - i,
{
    if i < k {
        lemma_skip_misses(node, i + 1, k);
    }
}

/// A leaf of a body structure: its path relative to the root, its MIME type
/// and its subtype.
pub type Leaf = (Seq<usize>, Seq<char>, Seq<char>);

/// The non-text leaves reached through multipart containers only, in
/// depth-first, left-to-right order.
pub open spec fn leaves(node: BodyStructure) -> Seq<Leaf>
    decreases node, width(node) + 1,
{
    match node {
        BodyStructure::Multipart { bodies } => leaves_from(node, 0),
        BodyStructure::Basic { ty, subtype } => seq![(Seq::<usize>::empty(), ty@, subtype@)],
        _ => Seq::empty(),
    }
}

pub open spec fn leaves_from(node: BodyStructure, i: nat) -> Seq<Leaf>
    decreases node, width(node) - i,
{
    match node {
        BodyStructure::Multipart { bodies } => if i < bodies@.len() {
            under((i + 1) as usize, leaves(bodies@[i as int])) + leaves_from(node, i + 1)
        } else {
            Seq::empty()
        },
        _ => Seq::empty(),
    }
}

/// Leaves moved under part `n`.
pub open spec fn under(n: usize, ls: Seq<Leaf>) -> Seq<Leaf> {
    ls.map_values(|l: Leaf| (seq![n] + l.0, l.1, l.2))
}

/// The first leaf of a known archive kind, with its path and kind.
pub open spec fn first_report_leaf(ls: Seq<Leaf>) -> Option<(Seq<usize>, ReportFileType)>
    decreases ls.len(),
{
    if ls.len() == 0 {
        None
    } else {
        match leaf_kind(ls[0].1, ls[0].2) {
            Some(k) => Some((ls[0].0, k)),
            None => first_report_leaf(ls.drop_first()),
        }
    }
}

proof fn lemma_first_of_concat(a: Seq<Leaf>, b: Seq<Leaf>)
    ensures
        first_report_leaf(a + b) == (match first_report_leaf(a) {
            Some(x) => Some(x),
            None => first_report_leaf(b),
        }),
    decreases a.len(),
{
    if a.len() > 0 {
        assert((a + b).drop_first() =~= a.drop_first() + b);
        lemma_first_of_concat(a.drop_first(), b);
    } else {
        assert(a + b =~= b);
    }
}

proof fn lemma_first_under(n: usize, ls: Seq<Leaf>)
    ensures
        first_report_leaf(under(n, ls)) == (match first_report_leaf(ls) {
            Some((p, k)) => Some((seq![n] + p, k)),
            None => None,
        }),
    decreases ls.len(),
{
    if ls.len() > 0 {
        assert(under(n, ls).drop_first() =~= under(n, ls.drop_first()));
        lemma_first_under(n, ls.drop_first());
    }
}

proof fn lemma_locate_first_leaf(node: BodyStructure)
    ensures
        locate_spec(node) == first_report_leaf(leaves(node)),
    decreases node, width(node) + 1,
{
    match node {
        BodyStructure::Multipart { bodies } => {
            lemma_locate_from_first_leaf(node, 0);
            assert(locate_spec(node) == locate_from(node, 0));
            assert(leaves(node) == leaves_from(node, 0));
            assert(locate_from(node, 0) == first_report_leaf(leaves_from(node, 0)));
            assert(locate_spec(node) == first_report_leaf(leaves(node)));
        },
        BodyStructure::Basic { ty, subtype } => {
            let ls = leaves(node);
            assert(ls.drop_first() =~= Seq::<Leaf>::empty());
        },
        _ => {},
    }
}

proof fn lemma_locate_from_first_leaf(node: BodyStructure, i: nat)
    ensures
        locate_from(node, i) == first_report_leaf(leaves_from(node, i)),
    decreases node, width(node) - i,
{
    if let BodyStructure::Multipart { bodies } = node {
        if i < bodies@.len() {
            vstd::std_specs::vec::axiom_vec_index_decreases(bodies, i as int);
            let child = bodies@[i as int];
            lemma_locate_first_leaf(child);
            lemma_locate_from_first_leaf(node, i + 1);
            lemma_first_of_concat(under((i + 1) as usize, leaves(child)), leaves_from(node, i + 1));
            lemma_first_under((i + 1) as usize, leaves(child));
        }
    }
}

/// `locate` picks the first leaf of a known archive kind among all leaves
/// reached through multipart containers, listed in depth-first,
/// left-to-right order with their 1-based paths.
pub proof fn lemma_locate_is_first_report_leaf(root: BodyStructure)
    ensures
        locate_spec(root) == first_report_leaf(leaves(root)),
{
    lemma_locate_first_leaf(root);
}

} // verus!

//! The log-filter compiler: topic normalisation and the parameterised SQL
//! statement that answers a filter over the index.
use vstd::prelude::*;
use vstd::string::StringExecFns;
use crate::hash::{H160, H256};

verus! {

/// The number of positional topic slots of an EVM log.
pub const MAX_TOPIC_COUNT: usize = 4;

/// The most rows a filter returns; the statement asks for one more, so that a
/// caller can tell a result at the cap from one over it.
pub const MAX_RESULTS: usize = 10000;

/// The projection and join of the filter statement, up to the first bound block number.
pub const QUERY_HEAD: &'static str = "\nSELECT\n\tl.substrate_block_hash,\n\tb.ethereum_block_hash,\n\tb.block_number,\n\tb.ethereum_storage_schema,\n\tl.transaction_index,\n\tl.log_index\nFROM logs AS l\nINNER JOIN blocks AS b\nON (b.block_number BETWEEN ";

/// The rest of the join condition, after the two bound block numbers.
pub const QUERY_JOIN: &'static str = ") AND b.substrate_block_hash = l.substrate_block_hash AND b.is_canon = 1\nWHERE 1";

/// Grouping, ordering and the row limit of the filter statement.
pub const QUERY_TAIL: &'static str = "\nGROUP BY l.substrate_block_hash, l.transaction_index, l.log_index\nORDER BY b.block_number ASC, l.transaction_index ASC, l.log_index ASC\nLIMIT 10001";

/// A value bound to a placeholder of a statement.
#[derive(Clone, Debug)]
pub enum SqlArg {
    Integer(i64),
    Blob(Vec<u8>),
}

/// What a bound value stands for.
pub enum BoundValue {
    Integer(i64),
    Blob(Seq<u8>),
}

impl View for SqlArg {
    type V = BoundValue;

    open spec fn view(&self) -> BoundValue {
        match self {
            SqlArg::Integer(i) => BoundValue::Integer(*i),
            SqlArg::Blob(b) => BoundValue::Blob(b@),
        }
    }
}

/// A statement and the values bound to its placeholders, in order.
pub struct Query {
    pub sql: String,
    pub args: Vec<SqlArg>,
}

/// Why a filter request was refused or could not be answered.
#[derive(Clone, Copy, Debug, PartialEq, Eq, Structural)]
pub enum FilterError {
    /// A topic row has more than four positions.
    InvalidTopicInput,
    /// A stored row does not decode.
    UndecodableRow,
    /// The query ran past its budget of engine steps.
    QueryBudgetExceeded,
    /// The store failed to run the query.
    QueryFailed,
}

impl FilterError {
    /// The message handed to the RPC layer.
    pub fn message(&self) -> (r: String)
        ensures
            r@ == match self {
                FilterError::InvalidTopicInput => "Invalid topic input. Maximum length is 4."@,
                FilterError::UndecodableRow => "Cannot decode EthereumStorageSchema for block"@,
                FilterError::QueryBudgetExceeded => "Query budget exceeded: the filter took too many steps"@,
                FilterError::QueryFailed => "Failed to query sql db with statement"@,
            },
    {
        match self {
            FilterError::InvalidTopicInput => String::from_str("Invalid topic input. Maximum length is 4."),
            FilterError::UndecodableRow => String::from_str("Cannot decode EthereumStorageSchema for block"),
            FilterError::QueryBudgetExceeded => String::from_str("Query budget exceeded: the filter took too many steps"),
            FilterError::QueryFailed => String::from_str("Failed to query sql db with statement"),
        }
    }
}

pub open spec fn args_view(s: Seq<SqlArg>) -> Seq<BoundValue> {
    s.map_values(|a: SqlArg| a@)
}

pub open spec fn hashes_view(s: Seq<H256>) -> Seq<Seq<u8>> {
    s.map_values(|h: H256| h@)
}

pub open spec fn addresses_view(s: Seq<H160>) -> Seq<Seq<u8>> {
    s.map_values(|a: H160| a@)
}

pub open spec fn blobs(s: Seq<Seq<u8>>) -> Seq<BoundValue> {
    s.map_values(|b: Seq<u8>| BoundValue::Blob(b))
}

/// A topic request is valid when no row has more than four positions.
pub open spec fn topics_valid(topics: Seq<Vec<Option<H256>>>) -> bool {
    forall|r: int| 0 <= r < topics.len() ==> #[trigger] topics[r]@.len() <= MAX_TOPIC_COUNT
}

/// The topics that the rows name at position `p`, row by row.
pub open spec fn position_values(topics: Seq<Vec<Option<H256>>>, p: int) -> Seq<Seq<u8>>
    decreases topics.len(),
{
    if topics.len() == 0 {
        Seq::empty()
    } else {
        let prev = position_values(topics.drop_last(), p);
        let row = topics.last()@;
        if 0 <= p < row.len() && row[p] is Some {
            prev.push(row[p]->Some_0@)
        } else {
            prev
        }
    }
}

/// The sequence with every value after its first occurrence removed.
pub open spec fn dedup(s: Seq<Seq<u8>>) -> Seq<Seq<u8>>
    decreases s.len(),
{
    if s.len() == 0 {
        Seq::empty()
    } else {
        let prev = dedup(s.drop_last());
        if prev.contains(s.last()) {
            prev
        } else {
            prev.push(s.last())
        }
    }
}

/// The positional topic set at slot `p`: each topic named there, once, in
/// order of first mention.
pub open spec fn topic_set(topics: Seq<Vec<Option<H256>>>, p: int) -> Seq<Seq<u8>> {
    dedup(position_values(topics, p))
}

pub proof fn lemma_push_contains(s: Seq<Seq<u8>>, a: Seq<u8>, x: Seq<u8>)
    ensures
        s.push(a).contains(x) <==> (s.contains(x) || x == a),
{
    if s.contains(x) {
        let k = choose|k: int| 0 <= k < s.len() && s[k] == x;
        assert(s.push(a)[k] == x);
    }
    if x == a {
        assert(s.push(a)[s.len() as int] == x);
    }
    if s.push(a).contains(x) && x != a {
        let k = choose|k: int| 0 <= k < s.push(a).len() && s.push(a)[k] == x;
        assert(s[k] == x);
    }
}

pub proof fn lemma_dedup_contains(s: Seq<Seq<u8>>, x: Seq<u8>)
    ensures
        dedup(s).contains(x) <==> s.contains(x),
        dedup(s).no_duplicates(),
    decreases s.len(),
{
    if s.len() > 0 {
        let prev = s.drop_last();
        let last = s.last();
        lemma_dedup_contains(prev, x);
        lemma_dedup_contains(prev, last);
        assert(s == prev.push(last));
        lemma_push_contains(prev, last, x);
        let d = dedup(prev);
        if !d.contains(last) {
            lemma_push_contains(d, last, x);
            assert forall|i: int, j: int| 0 <= i < j < d.push(last).len() implies
                d.push(last)[i] != d.push(last)[j] by {
                if j == d.len() {
                    assert(d[i] == d.push(last)[i]);
                    assert(d.contains(d[i]));
                }
            }
        }
    }
}

/// Whether `v` holds a hash equal to `h`.
pub fn contains_hash(v: &Vec<H256>, h: &H256) -> (r: bool)
    ensures
        r == hashes_view(v@).contains(h@),
{
    let mut i: usize = 0;
    while i < v.len()
        invariant
            0 <= i <= v@.len(),
            forall|j: int| 0 <= j < i ==> v@[j]@ != h@,
        decreases v@.len() - i,
    {
        if v[i].equals(h) {
            assert(hashes_view(v@)[i as int] == h@);
            return true;
        }
        i = i + 1;
    }
    proof {
        if hashes_view(v@).contains(h@) {
            let k = choose|k: int| 0 <= k < hashes_view(v@).len() && hashes_view(v@)[k] == h@;
            assert(v@[k]@ == h@);
        }
    }
    false
}

/// The topic set at position `p` of a request.
fn collect_topic_set(topics: &Vec<Vec<Option<H256>>>, p: usize) -> (r: Vec<H256>)
    ensures
        hashes_view(r@) == topic_set(topics@, p as int),
{
    let mut out: Vec<H256> = Vec::new();
    let mut i: usize = 0;
    while i < topics.len()
        invariant
            0 <= i <= topics@.len(),
            hashes_view(out@) == dedup(position_values(topics@.subrange(0, i as int), p as int)),
        decreases topics@.len() - i,
    {
        let ghost before = topics@.subrange(0, i as int);
        let ghost after = topics@.subrange(0, i + 1);
        assert(after.drop_last() == before);
        assert(after.last() == topics@[i as int]);
        let row = &topics[i];
        if p < row.len() {
            match &row[p] {
                Some(h) => {
                    let ghost pv = position_values(before, p as int);
                    assert(position_values(after, p as int) == pv.push(h@));
                    assert(pv.push(h@).drop_last() == pv);
                    if !contains_hash(&out, h) {
                        out.push(*h);
                        assert(hashes_view(out@) =~= hashes_view(out@.drop_last()).push(h@));
                    }
                },
                None => {
                    assert(position_values(after, p as int) == position_values(before, p as int));
                },
            }
        } else {
            assert(position_values(after, p as int) == position_values(before, p as int));
        }
        i = i + 1;
    }
    assert(topics@.subrange(0, topics@.len() as int) == topics@);
    out
}

/// Normalises the topic rows of a filter request into four positional sets.
///
/// Fails exactly when a row has more than four positions. Otherwise slot `p`
/// holds every topic that some row names at position `p`, once; wildcards
/// and positions past a row's end constrain nothing.
pub fn unique_topics(topics: &Vec<Vec<Option<H256>>>) -> (r: Result<[Vec<H256>; 4], FilterError>)
    ensures
        r is Err <==> !topics_valid(topics@),
        r is Err ==> r->Err_0 == FilterError::InvalidTopicInput,
        r is Ok ==> forall|p: int| 0 <= p < 4 ==> #[trigger] hashes_view(r->Ok_0@[p]@) == topic_set(topics@, p),
        r is Ok ==> forall|p: int, h: Seq<u8>| 0 <= p < 4 ==>
            (#[trigger] hashes_view(r->Ok_0@[p]@).contains(h) <==> position_values(topics@, p).contains(h)),
        r is Ok ==> forall|p: int| 0 <= p < 4 ==> #[trigger] hashes_view(r->Ok_0@[p]@).no_duplicates(),
{
    let mut i: usize = 0;
    while i < topics.len()
        invariant
            0 <= i <= topics@.len(),
            forall|r: int| 0 <= r < i ==> #[trigger] topics@[r]@.len() <= MAX_TOPIC_COUNT,
        decreases topics@.len() - i,
    {
        if topics[i].len() > MAX_TOPIC_COUNT {
            return Err(FilterError::InvalidTopicInput);
        }
        i = i + 1;
    }
    let s0 = collect_topic_set(topics, 0);
    let s1 = collect_topic_set(topics, 1);
    let s2 = collect_topic_set(topics, 2);
    let s3 = collect_topic_set(topics, 3);
    let sets = [s0, s1, s2, s3];
    assert forall|p: int| 0 <= p < 4 implies #[trigger] hashes_view(sets@[p]@) == topic_set(topics@, p) by {
        if p == 0 {} else if p == 1 {} else if p == 2 {} else {}
    }
    assert forall|p: int, h: Seq<u8>| 0 <= p < 4 implies
        (#[trigger] hashes_view(sets@[p]@).contains(h) <==> position_values(topics@, p).contains(h)) by {
        lemma_dedup_contains(position_values(topics@, p), h);
    }
    assert forall|p: int| 0 <= p < 4 implies #[trigger] hashes_view(sets@[p]@).no_duplicates() by {
        lemma_dedup_contains(position_values(topics@, p), Seq::empty());
    }
    Ok(sets)
}

/// `n` placeholders separated by commas.
pub open spec fn placeholders(n: nat) -> Seq<char>
    decreases n,
{
    if n == 0 {
        Seq::empty()
    } else if n == 1 {
        "?"@
    } else {
        placeholders((n - 1) as nat) + ", ?"@
    }
}

/// The column of topic slot `i`.
pub open spec fn topic_column(i: int) -> Seq<char> {
    if i == 0 {
        " AND l.topic_1"@
    } else if i == 1 {
        " AND l.topic_2"@
    } else if i == 2 {
        " AND l.topic_3"@
    } else {
        " AND l.topic_4"@
    }
}

/// The condition on the address, omitted when no address is asked for.
pub open spec fn address_clause(n: nat) -> Seq<char> {
    if n == 0 {
        Seq::empty()
    } else {
        " AND l.address IN ("@ + placeholders(n) + ")"@
    }
}

/// The condition on topic slot `i` holding a set of `n` topics: none for an
/// empty set, an equality for one topic, a membership test for more.
pub open spec fn topic_clause(i: int, n: nat) -> Seq<char> {
    if n == 0 {
        Seq::empty()
    } else if n == 1 {
        topic_column(i) + " = ?"@
    } else {
        topic_column(i) + " IN ("@ + placeholders(n) + ")"@
    }
}

/// The text of the filter statement for `n_addresses` addresses and topic
/// sets of the given sizes.
pub open spec fn query_sql(n_addresses: nat, sizes: Seq<nat>) -> Seq<char> {
    QUERY_HEAD@ + "?"@ + " AND "@ + "?"@ + QUERY_JOIN@ + address_clause(n_addresses)
        + topic_clause(0, sizes[0]) + topic_clause(1, sizes[1]) + topic_clause(2, sizes[2])
        + topic_clause(3, sizes[3]) + QUERY_TAIL@
}

/// The values bound to the filter statement: the block range, the addresses,
/// then each topic set in slot order.
pub open spec fn query_args(from_block: u64, to_block: u64, addresses: Seq<Seq<u8>>, sets: Seq<Seq<Seq<u8>>>) -> Seq<BoundValue> {
    seq![BoundValue::Integer(from_block as i64), BoundValue::Integer(to_block as i64)]
        + blobs(addresses) + blobs(sets[0]) + blobs(sets[1]) + blobs(sets[2]) + blobs(sets[3])
}

pub open spec fn set_sizes(topics: Seq<Vec<H256>>) -> Seq<nat> {
    seq![topics[0]@.len(), topics[1]@.len(), topics[2]@.len(), topics[3]@.len()]
}

pub open spec fn sets_view(topics: Seq<Vec<H256>>) -> Seq<Seq<Seq<u8>>> {
    seq![hashes_view(topics[0]@), hashes_view(topics[1]@), hashes_view(topics[2]@), hashes_view(topics[3]@)]
}

/// Appends `n` comma-separated placeholders.
fn push_placeholders(sql: &mut String, n: usize)
    ensures
        final(sql)@ == old(sql)@ + placeholders(n as nat),
{
    let mut k: usize = 0;
    while k < n
        invariant
            0 <= k <= n,
            sql@ == old(sql)@ + placeholders(k as nat),
        decreases n - k,
    {
        if k == 0 {
            sql.append("?");
        } else {
            sql.append(", ?");
        }
        k = k + 1;
    }
}

/// Appends one hash per placeholder.
fn push_hash_args(args: &mut Vec<SqlArg>, hashes: &Vec<H256>)
    ensures
        args_view(final(args)@) == args_view(old(args)@) + blobs(hashes_view(hashes@)),
{
    let mut i: usize = 0;
    while i < hashes.len()
        invariant
            0 <= i <= hashes@.len(),
            args_view(args@) == args_view(old(args)@) + blobs(hashes_view(hashes@.subrange(0, i as int))),
        decreases hashes@.len() - i,
    {
        let ghost before = args@;
        args.push(SqlArg::Blob(hashes[i].to_vec()));
        assert(hashes@.subrange(0, i + 1) == hashes@.subrange(0, i as int).push(hashes@[i as int]));
        assert(args_view(args@) =~= args_view(before).push(BoundValue::Blob(hashes@[i as int]@)));
        assert(blobs(hashes_view(hashes@.subrange(0, i + 1))) =~= blobs(hashes_view(hashes@.subrange(0, i as int))).push(BoundValue::Blob(hashes@[i as int]@)));
        i = i + 1;
    }
    assert(hashes@.subrange(0, hashes@.len() as int) == hashes@);
}

/// Appends the condition on topic slot `i`.
fn push_topic_clause(sql: &mut String, i: usize, n: usize)
    requires
        i < 4,
    ensures
        final(sql)@ == old(sql)@ + topic_clause(i as int, n as nat),
{
    if n == 0 {
        assert(old(sql)@ + topic_clause(i as int, 0) =~= old(sql)@);
        return;
    }
    if i == 0 {
        sql.append(" AND l.topic_1");
    } else if i == 1 {
        sql.append(" AND l.topic_2");
    } else if i == 2 {
        sql.append(" AND l.topic_3");
    } else {
        sql.append(" AND l.topic_4");
    }
    let ghost mid = sql@;
    if n == 1 {
        sql.append(" = ?");
        assert(sql@ =~= old(sql)@ + topic_clause(i as int, n as nat));
    } else {
        sql.append(" IN (");
        push_placeholders(sql, n);
        sql.append(")");
        assert(sql@ =~= old(sql)@ + topic_clause(i as int, n as nat));
    }
}

/// The statement that sets the canonical flag of the listed blocks.
pub open spec fn canon_update_sql(canon: bool, n: nat) -> Seq<char> {
    (if canon {
        "UPDATE blocks SET is_canon = 1 WHERE substrate_block_hash IN ("@
    } else {
        "UPDATE blocks SET is_canon = 0 WHERE substrate_block_hash IN ("@
    }) + placeholders(n) + ")"@
}

/// Builds the statement that marks the blocks with the given native hashes
/// canonical (`canon`) or not; each hash is bound, in order.
pub fn canon_update_query(canon: bool, hashes: &Vec<H256>) -> (r: Query)
    ensures
        r.sql@ == canon_update_sql(canon, hashes@.len()),
        args_view(r.args@) == blobs(hashes_view(hashes@)),
{
    let mut sql = if canon {
        String::from_str("UPDATE blocks SET is_canon = 1 WHERE substrate_block_hash IN (")
    } else {
        String::from_str("UPDATE blocks SET is_canon = 0 WHERE substrate_block_hash IN (")
    };
    push_placeholders(&mut sql, hashes.len());
    sql.append(")");
    let mut args: Vec<SqlArg> = Vec::new();
    push_hash_args(&mut args, hashes);
    assert(args_view(Seq::<SqlArg>::empty()) + blobs(hashes_view(hashes@)) =~= blobs(hashes_view(hashes@)));
    Query { sql, args }
}

/// The statement text depends on the request's shape alone, and the bound
/// values on its contents alone: two compilations of the same filter give the
/// same text and the same values, and two filters with as many addresses and
/// topic sets of the same sizes give the same text.
pub proof fn lemma_build_query_deterministic(
    from_block: u64,
    to_block: u64,
    addresses: Seq<H160>,
    topics: Seq<Vec<H256>>,
    other_addresses: Seq<H160>,
    other_topics: Seq<Vec<H256>>,
    a: Query,
    b: Query,
)
    requires
        topics.len() == 4,
        other_topics.len() == 4,
        a.sql@ == query_sql(addresses.len(), set_sizes(topics)),
        args_view(a.args@) == query_args(from_block, to_block, addresses_view(addresses), sets_view(topics)),
        b.sql@ == query_sql(other_addresses.len(), set_sizes(other_topics)),
        args_view(b.args@) == query_args(from_block, to_block, addresses_view(other_addresses), sets_view(other_topics)),
    ensures
        addresses.len() == other_addresses.len() && set_sizes(topics) == set_sizes(other_topics) ==> a.sql@ == b.sql@,
        addresses == other_addresses && topics == other_topics ==> a.sql@ == b.sql@ && args_view(a.args@) == args_view(b.args@),
{
}

/// Compiles a filter into the statement that answers it over the index.
///
/// The text depends only on how many addresses there are and how large each
/// topic set is; every address and topic is bound, never written into the
/// text. Topic slots with an empty set are not constrained at all, so the
/// zero padding of absent topics is never matched against.
pub fn build_query(from_block: u64, to_block: u64, addresses: &Vec<H160>, topics: &[Vec<H256>; 4]) -> (r: Query)
    ensures
        r.sql@ == query_sql(addresses@.len(), set_sizes(topics@)),
        args_view(r.args@) == query_args(from_block, to_block, addresses_view(addresses@), sets_view(topics@)),
{
    let mut sql = String::from_str(QUERY_HEAD);
    let mut args: Vec<SqlArg> = Vec::new();
    sql.append("?");
    args.push(SqlArg::Integer(from_block as i64));
    sql.append(" AND ");
    sql.append("?");
    args.push(SqlArg::Integer(to_block as i64));
    sql.append(QUERY_JOIN);
    let ghost head = sql@;
    assert(args_view(args@) =~= seq![BoundValue::Integer(from_block as i64), BoundValue::Integer(to_block as i64)]);
    if addresses.len() > 0 {
        sql.append(" AND l.address IN (");
        push_placeholders(&mut sql, addresses.len());
        sql.append(")");
        let mut i: usize = 0;
        let ghost base = args@;
        while i < addresses.len()
            invariant
                0 <= i <= addresses@.len(),
                args_view(args@) == args_view(base) + blobs(addresses_view(addresses@.subrange(0, i as int))),
            decreases addresses@.len() - i,
        {
            let ghost before = args@;
            args.push(SqlArg::Blob(addresses[i].to_vec()));
            assert(addresses@.subrange(0, i + 1) == addresses@.subrange(0, i as int).push(addresses@[i as int]));
            assert(args_view(args@) =~= args_view(before).push(BoundValue::Blob(addresses@[i as int]@)));
            assert(blobs(addresses_view(addresses@.subrange(0, i + 1))) =~= blobs(addresses_view(addresses@.subrange(0, i as int))).push(BoundValue::Blob(addresses@[i as int]@)));
            i = i + 1;
        }
        assert(addresses@.subrange(0, addresses@.len() as int) == addresses@);
    } else {
        assert(addresses_view(addresses@) =~= Seq::empty());
        assert(blobs(addresses_view(addresses@)) =~= Seq::empty());
        assert(args_view(args@) =~= args_view(args@) + blobs(addresses_view(addresses@)));
    }
    assert(sql@ =~= head + address_clause(addresses@.len()));
    let ghost with_addresses = sql@;
    let ghost args_addresses = args_view(args@);
    let mut i: usize = 0;
    while i < 4
        invariant
            0 <= i <= 4,
            sql@ == with_addresses + (if i >= 1 { topic_clause(0, topics@[0]@.len()) } else { Seq::empty() })
                + (if i >= 2 { topic_clause(1, topics@[1]@.len()) } else { Seq::empty() })
                + (if i >= 3 { topic_clause(2, topics@[2]@.len()) } else { Seq::empty() })
                + (if i >= 4 { topic_clause(3, topics@[3]@.len()) } else { Seq::empty() }),
            args_view(args@) == args_addresses
                + (if i >= 1 { blobs(hashes_view(topics@[0]@)) } else { Seq::empty() })
                + (if i >= 2 { blobs(hashes_view(topics@[1]@)) } else { Seq::empty() })
                + (if i >= 3 { blobs(hashes_view(topics@[2]@)) } else { Seq::empty() })
                + (if i >= 4 { blobs(hashes_view(topics@[3]@)) } else { Seq::empty() }),
        decreases 4 - i,
    {
        let ghost sql_before = sql@;
        let ghost args_before = args_view(args@);
        push_topic_clause(&mut sql, i, topics[i].len());
        push_hash_args(&mut args, &topics[i]);
        if i == 0 {
            assert(sql@ =~= with_addresses + topic_clause(0, topics@[0]@.len()));
            assert(args_view(args@) =~= args_addresses + blobs(hashes_view(topics@[0]@)));
        } else if i == 1 {
            assert(sql@ =~= with_addresses + topic_clause(0, topics@[0]@.len()) + topic_clause(1, topics@[1]@.len()));
            assert(args_view(args@) =~= args_addresses + blobs(hashes_view(topics@[0]@)) + blobs(hashes_view(topics@[1]@)));
        } else if i == 2 {
            assert(sql@ =~= with_addresses + topic_clause(0, topics@[0]@.len()) + topic_clause(1, topics@[1]@.len())
                + topic_clause(2, topics@[2]@.len()));
            assert(args_view(args@) =~= args_addresses + blobs(hashes_view(topics@[0]@)) + blobs(hashes_view(topics@[1]@))
                + blobs(hashes_view(topics@[2]@)));
        } else {
            assert(sql@ =~= with_addresses + topic_clause(0, topics@[0]@.len()) + topic_clause(1, topics@[1]@.len())
                + topic_clause(2, topics@[2]@.len()) + topic_clause(3, topics@[3]@.len()));
            assert(args_view(args@) =~= args_addresses + blobs(hashes_view(topics@[0]@)) + blobs(hashes_view(topics@[1]@))
                + blobs(hashes_view(topics@[2]@)) + blobs(hashes_view(topics@[3]@)));
        }
        i = i + 1;
    }
    sql.append(QUERY_TAIL);
    assert(sql@ =~= query_sql(addresses@.len(), set_sizes(topics@)));
    assert(args_view(args@) =~= query_args(from_block, to_block, addresses_view(addresses@), sets_view(topics@)));
    Query { sql, args }
}

} // verus!

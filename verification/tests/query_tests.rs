use data_storage::query::ReserveSnapshot;
use data_storage::query::get_multiple_reserves;
use data_storage::query::get_reserves;
use data_storage::query::get_tuple_reserves;

#[test]
fn scenario_query_shapes() {
    assert_eq!(
        get_reserves(),
        ReserveSnapshot { total_minted: 100, total_reserve: 200 }
    );
    assert_eq!(
        get_multiple_reserves(),
        vec![
            ReserveSnapshot { total_minted: 100, total_reserve: 200 },
            ReserveSnapshot { total_minted: 300, total_reserve: 400 },
        ]
    );
    assert_eq!(get_tuple_reserves(), (100, 200));
}

#[test]
fn queries_are_stable_across_calls() {
    assert_eq!(get_reserves(), get_reserves());
    assert_eq!(get_multiple_reserves(), get_multiple_reserves());
    assert_eq!(get_tuple_reserves(), get_tuple_reserves());
}

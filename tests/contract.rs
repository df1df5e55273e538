use named_list_store::operations::call;
use named_list_store::store::NamedListStore;

fn strings(items: &[&str]) -> Vec<String> {
    items.iter().map(|s| s.to_string()).collect()
}

fn setup(named_key: &str) -> NamedListStore {
    let mut store = NamedListStore::new();
    call(&mut store, Vec::new(), "add", named_key);
    store
}

fn call_contract(store: &mut NamedListStore, named_key: &str, data: Vec<&str>, method: &str) {
    call(store, strings(&data), method, named_key);
}

fn stored(store: &NamedListStore, named_key: &str) -> Vec<String> {
    store.get_list(named_key).expect("named key should exist")
}

#[test]
fn should_create_named_keys() {
    let named_key = "my-named-key";
    let store = setup(named_key);
    let expected_output: Vec<String> = Vec::new();
    assert_eq!(stored(&store, named_key), expected_output, "Value should be empty");
}

#[test]
fn should_add_non_existing_element() {
    let named_key = "my-named-key";
    let mut data: Vec<&str> = Vec::new();
    data.push("TEST");
    let mut store = setup(named_key);
    call_contract(&mut store, named_key, data, "add");
    assert_eq!(stored(&store, named_key), strings(&["TEST"]), "Should contain 1 element");
}

#[test]
fn should_add_multiple_elements() {
    let named_key = "my-named-key";
    let mut data: Vec<&str> = Vec::new();
    data.push("ID1;VALUE");
    data.push("ID2;VALUE");
    data.push("ID3;VALUE");
    let mut store = setup(named_key);
    call_contract(&mut store, named_key, data, "add");
    assert_eq!(
        stored(&store, named_key),
        strings(&["ID1;VALUE", "ID2;VALUE", "ID3;VALUE"]),
        "Should contain 3 elements"
    );
}

#[test]
fn should_update_existing_element() {
    let named_key = "my-named-key";
    let mut data_call_one: Vec<&str> = Vec::new();
    data_call_one.push("ID1;VALUE");
    let mut store = setup(named_key);
    call_contract(&mut store, named_key, data_call_one, "add");
    let mut data_call_two: Vec<&str> = Vec::new();
    data_call_two.push("ID1;VALUE2");
    call_contract(&mut store, named_key, data_call_two, "add");
    assert_eq!(stored(&store, named_key), strings(&["ID1;VALUE2"]), "Should be updated");
}

#[test]
fn should_del_element() {
    let named_key = "my-named-key";
    let mut store = setup(named_key);
    let mut data_to_add: Vec<&str> = Vec::new();
    data_to_add.push("ID1;VALUE");
    let mut data_to_remove: Vec<&str> = Vec::new();
    data_to_remove.push("ID1;VALUE");
    call_contract(&mut store, named_key, data_to_add, "add");
    call_contract(&mut store, named_key, data_to_remove, "del");
    let expected_output: Vec<String> = Vec::new();
    assert_eq!(stored(&store, named_key), expected_output, "Value should be empty");
}

#[test]
fn should_del_multiple_elements() {
    let named_key = "my-named-key";
    let mut store = setup(named_key);
    let mut data_to_add: Vec<&str> = Vec::new();
    data_to_add.push("ID1;VALUE");
    data_to_add.push("ID2;VALUE");
    data_to_add.push("ID3;VALUE");
    let mut data_to_remove: Vec<&str> = Vec::new();
    data_to_remove.push("ID1;VALUE");
    data_to_remove.push("ID2;VALUE");
    call_contract(&mut store, named_key, data_to_add, "add");
    call_contract(&mut store, named_key, data_to_remove, "del");
    assert_eq!(stored(&store, named_key), strings(&["ID3;VALUE"]), "Value should be empty");
}

#[test]
fn should_not_del_element_non_existing_element() {
    let named_key = "my-named-key";
    let mut store = setup(named_key);
    let mut data_call_one: Vec<&str> = Vec::new();
    data_call_one.push("ID1;VALUE");
    call_contract(&mut store, named_key, data_call_one, "add");
    let mut data_call_two: Vec<&str> = Vec::new();
    data_call_two.push("ID2;VALUE");
    call_contract(&mut store, named_key, data_call_two, "del");
    assert_eq!(
        stored(&store, named_key),
        strings(&["ID1;VALUE"]),
        "Value should contain 1 element"
    );
}

#[test]
fn should_remove_all_elements() {
    let named_key = "my-named-key";
    let mut store = setup(named_key);
    let mut data_call: Vec<&str> = Vec::new();
    data_call.push("ID1;VALUE");
    data_call.push("ID2;VALUE");
    call_contract(&mut store, named_key, data_call, "add");
    assert_eq!(
        stored(&store, named_key),
        strings(&["ID1;VALUE", "ID2;VALUE"]),
        "Value should contain 2 elements"
    );
    let data_call: Vec<&str> = Vec::new();
    call_contract(&mut store, named_key, data_call, "delall");
    let expected_output: Vec<String> = Vec::new();
    assert_eq!(stored(&store, named_key), expected_output, "Value should contain 0 elements");
}

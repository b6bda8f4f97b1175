use gpt::checkpoint::{optimizer_file, tensor_file, Checkpoint};
use gpt::GPT;

#[test]
fn tensor_files_are_named_by_id() {
    assert_eq!(tensor_file(0), "tensor_0.dat");
    assert_eq!(tensor_file(7), "tensor_7.dat");
    assert_eq!(tensor_file(10), "tensor_10.dat");
    assert_eq!(tensor_file(4096), "tensor_4096.dat");
    assert_eq!(tensor_file(usize::MAX), format!("tensor_{}.dat", usize::MAX));
}

#[test]
fn optimizer_has_its_own_file() {
    assert_eq!(optimizer_file(), "optimizer.dat");
}

#[test]
fn checkpoint_lists_the_tensors_in_order() {
    let c = Checkpoint::of(&vec![3, 12, 5]);
    let names: Vec<&str> = c.tensors.iter().map(|t| t.name.as_str()).collect();
    let ids: Vec<usize> = c.tensors.iter().map(|t| t.id).collect();
    assert_eq!(names, vec!["tensor_3.dat", "tensor_12.dat", "tensor_5.dat"]);
    assert_eq!(ids, vec![3, 12, 5]);
    assert_eq!(c.optimizer, "optimizer.dat");
}

#[test]
fn saving_writes_one_file_per_parameter() {
    let model = GPT::new(4, 3, 4, 1, 1, 2, 0).unwrap();
    let c = model.save();
    assert_eq!(c.tensors.len(), model.params().len());
    for (file, id) in c.tensors.iter().zip(model.params().iter()) {
        assert_eq!(file.id, *id);
        assert_eq!(file.name, format!("tensor_{}.dat", id));
    }
    assert_eq!(c.optimizer, "optimizer.dat");
}

#[test]
fn loading_reads_what_saving_writes() {
    let model = GPT::new(4, 3, 4, 2, 2, 2, 1).unwrap();
    let saved = model.save();
    let loaded = model.load(true).unwrap();
    assert_eq!(saved.tensors.len(), loaded.tensors.len());
    for (a, b) in saved.tensors.iter().zip(loaded.tensors.iter()) {
        assert_eq!(a.id, b.id);
        assert_eq!(a.name, b.name);
    }
    assert_eq!(saved.optimizer, loaded.optimizer);
}

#[test]
fn missing_location_loads_nothing() {
    let model = GPT::new(4, 3, 4, 1, 1, 2, 0).unwrap();
    assert!(model.load(false).is_none());
}

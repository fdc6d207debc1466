use vstd::prelude::*;

verus! {

/// The smallest value of a non-empty sequence, 0 for the empty one.
pub open spec fn seq_min(s: Seq<u32>) -> u32
    decreases s.len(),
{
    if s.len() == 0 {
        0
    } else if s.len() == 1 {
        s[0]
    } else {
        let m = seq_min(s.drop_last());
        if s.last() < m { s.last() } else { m }
    }
}

/// The largest value of a non-empty sequence, 0 for the empty one.
pub open spec fn seq_max(s: Seq<u32>) -> u32
    decreases s.len(),
{
    if s.len() == 0 {
        0
    } else if s.len() == 1 {
        s[0]
    } else {
        let m = seq_max(s.drop_last());
        if s.last() > m { s.last() } else { m }
    }
}

/// Represents a single array with metadata for visualization and management.
#[derive(Debug, Clone)]
pub struct ArrayData {
    /// The actual array data.
    pub data: Vec<u32>,
    /// User-defined name for the array.
    pub name: String,
    /// Number of elements in the array.
    pub size: usize,
    /// Minimum value in the array.
    pub min_value: u32,
    /// Maximum value in the array.
    pub max_value: u32,
}

impl ArrayData {
    /// Constructs a new ArrayData, computing its size and its minimum and maximum values.
    pub fn new(data: Vec<u32>, name: String) -> (r: Self)
        ensures
            r.data@ == data@,
            r.name@ == name@,
            r.size == data@.len(),
            r.min_value == seq_min(data@),
            r.max_value == seq_max(data@),
    {
        let size = data.len();
        let mut min_value: u32 = 0;
        let mut max_value: u32 = 0;
        let mut k: usize = 0;
        while k < size
            invariant
                size == data@.len(),
                k <= size,
                min_value == seq_min(data@.take(k as int)),
                max_value == seq_max(data@.take(k as int)),
            decreases size - k,
        {
            let x = data[k];
            assert(data@.take(k as int + 1).drop_last() =~= data@.take(k as int));
            if k == 0 || x < min_value {
                min_value = x;
            }
            if k == 0 || x > max_value {
                max_value = x;
            }
            k = k + 1;
        }
        assert(data@.take(size as int) =~= data@);
        ArrayData { data, name, size, min_value, max_value }
    }
}

} // verus!

verus! {

/// Manages a collection of arrays and tracks the currently selected one.
pub struct ArrayManager {
    arrays: Vec<ArrayData>,
    selected_index: Option<usize>,
}

/// The abstract state of an [`ArrayManager`]: the arrays, and the selection.
pub struct ArrayManagerView {
    pub arrays: Seq<ArrayData>,
    pub selected_index: Option<usize>,
}

impl View for ArrayManager {
    type V = ArrayManagerView;

    closed spec fn view(&self) -> ArrayManagerView {
        ArrayManagerView { arrays: self.arrays@, selected_index: self.selected_index }
    }
}

/// The selection after removing the array at `index`: cleared when it was that array,
/// moved down by one when it was a later one, kept otherwise.
pub open spec fn selection_after_remove(selected: Option<usize>, index: usize) -> Option<usize> {
    match selected {
        Some(s) => if s == index {
            None
        } else if s > index {
            Some((s - 1) as usize)
        } else {
            Some(s)
        },
        None => None,
    }
}

impl ArrayManager {
    /// An empty manager with nothing selected.
    pub fn new() -> (r: Self)
        ensures
            r@.arrays.len() == 0,
            r@.selected_index is None,
    {
        Self { arrays: Vec::new(), selected_index: None }
    }

    /// Adds an array at the end; the selection is unchanged.
    pub fn add_array(&mut self, array_data: ArrayData)
        ensures
            final(self)@.arrays == old(self)@.arrays.push(array_data),
            final(self)@.selected_index == old(self)@.selected_index,
    {
        self.arrays.push(array_data);
    }

    /// The selected array, if one is selected and it exists.
    pub fn get_selected_array(&self) -> (r: Option<&ArrayData>)
        ensures
            match self@.selected_index {
                Some(i) => if i < self@.arrays.len() {
                    r == Some(&self@.arrays[i as int])
                } else {
                    r is None
                },
                None => r is None,
            },
    {
        if let Some(index) = self.selected_index {
            if index < self.arrays.len() {
                Some(&self.arrays[index])
            } else {
                None
            }
        } else {
            None
        }
    }

    /// The selected array for changing, if one is selected and it exists; what is written
    /// through it lands in that array.
    pub fn get_selected_array_mut(&mut self) -> (r: Option<&mut ArrayData>)
        ensures
            match old(self)@.selected_index {
                Some(i) => if i < old(self)@.arrays.len() {
                    r is Some && *r->0 == old(self)@.arrays[i as int] && final(self)@ == (ArrayManagerView {
                        arrays: old(self)@.arrays.update(i as int, *final(r->0)),
                        ..old(self)@
                    })
                } else {
                    r is None && final(self)@ == old(self)@
                },
                None => r is None && final(self)@ == old(self)@,
            },
    {
        match self.selected_index {
            Some(index) => {
                if index < self.arrays.len() {
                    Some(&mut self.arrays[index])
                } else {
                    None
                }
            },
            None => None,
        }
    }

    /// Removes the array at `index`, if there is one, and keeps the selection on the same
    /// array: it is cleared when that array was removed and shifted when a previous one was.
    pub fn remove_array(&mut self, index: usize)
        ensures
            index < old(self)@.arrays.len() ==> final(self)@ == (ArrayManagerView {
                arrays: old(self)@.arrays.remove(index as int),
                selected_index: selection_after_remove(old(self)@.selected_index, index),
            }),
            index >= old(self)@.arrays.len() ==> final(self)@ == old(self)@,
    {
        if index < self.arrays.len() {
            self.arrays.remove(index);
            if let Some(selected) = self.selected_index {
                if selected == index {
                    self.selected_index = None;
                } else if selected > index {
                    self.selected_index = Some(selected - 1);
                }
            }
        }
    }

    /// Selects the array at `index` for the visualizers.
    pub fn select_array(&mut self, index: usize)
        ensures
            final(self)@ == (ArrayManagerView { selected_index: Some(index), ..old(self)@ }),
    {
        self.selected_index = Some(index);
    }

    /// The arrays, in order.
    pub fn arrays(&self) -> (r: &Vec<ArrayData>)
        ensures
            r@ == self@.arrays,
    {
        &self.arrays
    }

    /// The index of the selected array, if any.
    pub fn selected_index(&self) -> (r: Option<usize>)
        ensures
            r == self@.selected_index,
    {
        self.selected_index
    }
}

} // verus!

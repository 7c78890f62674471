//! The index list of a mesh whose faces are triangles and quads.

use vstd::prelude::*;

verus! {

/// The indices that draw one face as triangles. A face of four corners is
/// split along the diagonal from its first corner; of any other face the
/// first three corners make the one triangle.
pub open spec fn face_triangles(face: Seq<u32>) -> Seq<u32> {
    if face.len() == 4 {
        seq![face[0], face[1], face[2], face[0], face[2], face[3]]
    } else {
        seq![face[0], face[1], face[2]]
    }
}

/// The indices that draw a run of faces, face after face.
pub open spec fn triangulated(faces: Seq<Seq<u32>>) -> Seq<u32>
    decreases faces.len(),
{
    if faces.len() == 0 {
        Seq::empty()
    } else {
        triangulated(faces.drop_last()) + face_triangles(faces.last())
    }
}

/// Whether every face has the three corners that a triangle needs.
pub open spec fn drawable(faces: Seq<Seq<u32>>) -> bool {
    forall|i: int| 0 <= i < faces.len() ==> (#[trigger] faces[i]).len() >= 3
}

/// Builds the index list that draws `faces` as triangles.
pub fn triangulate(faces: &Vec<Vec<u32>>) -> (indices: Vec<u32>)
    requires
        drawable(faces.deep_view()),
    ensures
        indices@ == triangulated(faces.deep_view()),
{
    let ghost all = faces.deep_view();
    let mut indices: Vec<u32> = Vec::new();
    let mut i: usize = 0;
    assert(all.take(0) =~= Seq::<Seq<u32>>::empty());
    while i < faces.len()
        invariant
            i <= faces@.len(),
            all == faces.deep_view(),
            all.len() == faces@.len(),
            drawable(all),
            indices@ == triangulated(all.take(i as int)),
        decreases faces@.len() - i,
    {
        let face = &faces[i];
        assert(all[i as int] == face.deep_view());
        assert(face.deep_view() =~= face@);
        proof {
            let longer = all.take(i + 1);
            assert(longer.drop_last() =~= all.take(i as int));
            assert(longer.last() == all[i as int]);
        }
        let ghost before = indices@;
        if face.len() == 4 {
            let i0: u32 = face[0];
            let i1: u32 = face[1];
            let i2: u32 = face[2];
            let i3: u32 = face[3];
            indices.push(i0);
            indices.push(i1);
            indices.push(i2);

            indices.push(i0);
            indices.push(i2);
            indices.push(i3);
        } else {
            let i0: u32 = face[0];
            let i1: u32 = face[1];
            let i2: u32 = face[2];
            indices.push(i0);
            indices.push(i1);
            indices.push(i2);
        }
        assert(indices@ =~= before + face_triangles(face@));
        i += 1;
    }
    assert(all.take(faces@.len() as int) =~= all);
    indices
}

} // verus!

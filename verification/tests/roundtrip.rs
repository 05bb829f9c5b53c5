//! Uploads, allocations and read-backs.

use candle_wgpu::cpu_storage::CpuStorage;
use candle_wgpu::device::{AdapterFeatures, DeviceLocation, PipelineCache, WgpuDevice};
use candle_wgpu::dtype::DType;
use candle_wgpu::error::{Error, Missing};
use candle_wgpu::layout::Layout;
use candle_wgpu::storage::{aligned_size, WgpuStorage};
use half::f16;

fn device() -> WgpuDevice {
    WgpuDevice::from_adapter(7, AdapterFeatures { shader_f16: false, dp4a: false })
}

fn f32s(c: &CpuStorage) -> Vec<f32> {
    match c {
        CpuStorage::F32(v) => v.iter().map(|b| f32::from_bits(*b)).collect(),
        _ => panic!("no 32-bit floats"),
    }
}

fn round_trip(values: &[f32]) -> Vec<f32> {
    let cpu = CpuStorage::F32(values.iter().map(|v| v.to_bits()).collect());
    let on_gpu = WgpuStorage::from_cpu_storage(device(), &cpu).unwrap();
    assert_eq!(on_gpu.device.location(), DeviceLocation::Wgpu { gpu_id: 0 });
    f32s(&on_gpu.read_to_cpu().unwrap())
}

#[test]
fn f32_roundtrip() {
    assert_eq!(round_trip(&[1.0, 2.0, 3.0, 4.0]), vec![1.0, 2.0, 3.0, 4.0]);
}

#[test]
fn f16_roundtrip() {
    let values: Vec<u16> =
        [1.0f32, 2.5, -3.0, 0.125].iter().map(|v| f16::from_f32(*v).to_bits()).collect();
    let on_gpu = WgpuStorage::from_cpu_storage(device(), &CpuStorage::F16(values.clone())).unwrap();
    assert_eq!(on_gpu.dtype, DType::F16);
    match on_gpu.read_to_cpu().unwrap() {
        CpuStorage::F16(v) => assert_eq!(v, values),
        _ => panic!("another dtype"),
    }
}

#[test]
fn u32_roundtrip() {
    let values: Vec<u32> = vec![0, 1, 7, 42, 4294967295];
    let on_gpu = WgpuStorage::from_cpu_storage(device(), &CpuStorage::U32(values.clone())).unwrap();
    assert_eq!(on_gpu.dtype, DType::U32);
    match on_gpu.read_to_cpu().unwrap() {
        CpuStorage::U32(v) => assert_eq!(v, values),
        _ => panic!("another dtype"),
    }
}

#[test]
fn zeros_alloc() {
    let z = WgpuStorage::alloc_zeros(device(), DType::F32, &[4, 4]).unwrap();
    assert_eq!(z.dtype, DType::F32);
    assert_eq!(z.len, 16);
    let v = f32s(&z.read_to_cpu().unwrap());
    assert_eq!(v.len(), 16);
    assert!(v.iter().all(|x| *x == 0.0), "expected all zeros, got {v:?}");
}

#[test]
fn single_element_f32() {
    assert_eq!(round_trip(&[42.0]), vec![42.0]);
}

#[test]
fn larger_f32_buffer() {
    let n: usize = 4096;
    let values: Vec<f32> = (0..n).map(|i| i as f32 * 0.5).collect();
    assert_eq!(round_trip(&values), values);
}

#[test]
fn signed_and_short_elements_come_back() {
    let i16s = CpuStorage::I16(vec![-1, 2, -32768]);
    let s = WgpuStorage::from_cpu_storage(device(), &i16s).unwrap();
    assert_eq!(s.buffer.size, 8);
    match s.read_to_cpu().unwrap() {
        CpuStorage::I16(v) => assert_eq!(v, vec![-1, 2, -32768]),
        _ => panic!("another dtype"),
    }
    let i64s = CpuStorage::I64(vec![i64::MIN, -1, i64::MAX]);
    let s = WgpuStorage::from_cpu_storage(device(), &i64s).unwrap();
    match s.read_to_cpu().unwrap() {
        CpuStorage::I64(v) => assert_eq!(v, vec![i64::MIN, -1, i64::MAX]),
        _ => panic!("another dtype"),
    }
}

#[test]
fn bytes_are_little_endian_and_padded() {
    let s = WgpuStorage::from_cpu_storage(device(), &CpuStorage::BF16(vec![0x3f80])).unwrap();
    assert_eq!(s.buffer.bytes, vec![0x80, 0x3f, 0, 0]);
    assert_eq!(aligned_size(0), 0);
    assert_eq!(aligned_size(1), 4);
    assert_eq!(aligned_size(8), 8);
}

#[test]
fn packed_dtypes_are_refused() {
    assert_eq!(
        WgpuStorage::alloc_zeros(device(), DType::F4, &[2]).unwrap_err(),
        Error::AllocSubByte { dtype: DType::F4 }
    );
    let s = WgpuStorage::from_cpu_storage(device(), &CpuStorage::F4(vec![1, 2])).unwrap();
    assert_eq!(s.read_to_cpu().unwrap_err(), Error::ReadbackSubByte { dtype: DType::F4 });
    let s = WgpuStorage::from_cpu_storage(device(), &CpuStorage::F8E8M0(vec![1, 2])).unwrap();
    assert_eq!(s.read_to_cpu().unwrap_err(), Error::ReadbackUnsupported { dtype: DType::F8E8M0 });
}

#[test]
fn clones_copy_the_whole_buffer() {
    let cpu = CpuStorage::F32(vec![1, 2, 3]);
    let s = WgpuStorage::from_cpu_storage(device(), &cpu).unwrap();
    let (copy, c) = s.try_clone(&Layout::contiguous(vec![3])).unwrap();
    assert_eq!((c.src_offset, c.dst_offset, c.size), (0, 0, 12));
    assert_eq!(copy.len, 3);
    let column = Layout { dims: vec![1, 3], stride: vec![1, 2], start_offset: 0 };
    assert_eq!(
        s.try_clone(&column).unwrap_err(),
        Error::NotImplemented { entry: Missing::TryCloneNonContiguous }
    );
}

#[test]
fn entries_that_are_not_carried_out() {
    assert_eq!(
        WgpuStorage::not_implemented(Missing::Conv2d).unwrap_err(),
        Error::NotImplemented { entry: Missing::Conv2d }
    );
    assert_eq!(
        device().get_current_seed().unwrap_err(),
        Error::NotImplemented { entry: Missing::GetCurrentSeed }
    );
    assert!(device().set_seed(3).is_ok());
}

#[test]
fn a_pipeline_is_compiled_once() {
    let mut c = PipelineCache::new();
    assert_eq!(c.get("unary:neg:f32"), None);
    assert_eq!(c.get_or_create_pipeline("unary:neg:f32", 1), 1);
    assert_eq!(c.get_or_create_pipeline("unary:abs:f32", 2), 2);
    assert_eq!(c.get_or_create_pipeline("unary:neg:f32", 3), 1);
    assert_eq!(c.get("unary:neg:f32"), Some(1));
}

#[test]
fn devices_are_told_apart_by_their_number() {
    let a = WgpuDevice::from_adapter(1, AdapterFeatures { shader_f16: true, dp4a: false });
    let b = WgpuDevice::from_adapter(1, AdapterFeatures { shader_f16: false, dp4a: false });
    assert!(a.same_device(&b) && a == b);
    assert!(!a.same_device(&device()));
    assert!(a.supports_shader_f16() && !b.supports_shader_f16());
}

#[test]
fn buffers_can_be_adopted() {
    let cpu = CpuStorage::F32(vec![1, 2, 3]);
    let s = WgpuStorage::from_cpu_storage(device(), &cpu).unwrap();
    let r = WgpuStorage::from_raw_buffer(s.buffer, 3, DType::U32, s.device);
    assert_eq!((r.len, r.dtype), (3, DType::U32));
    match r.read_to_cpu().unwrap() {
        CpuStorage::U32(v) => assert_eq!(v, vec![1, 2, 3]),
        _ => panic!("another dtype"),
    }
}

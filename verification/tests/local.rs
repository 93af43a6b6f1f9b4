use makereadme::errors::Error;
use makereadme::local::{
    context_plan, default_model_alias, gemini_url, ollama_chat_url, plan_devices, sampler_seed,
    BackendDevice, ContextPlan, DeviceKind, DevicePlan, NO_GPU_DETAIL,
};

#[test]
fn model_aliases() {
    assert_eq!(default_model_alias("/models/qwen2.5-7b.Q4_K_M.gguf"), "qwen2.5-7b.Q4_K_M");
    assert_eq!(default_model_alias("model.gguf"), "model");
    assert_eq!(default_model_alias("/models/plain"), "plain");
    assert_eq!(default_model_alias("/models/.hidden"), ".hidden");
    assert_eq!(default_model_alias("dir/name./"), "name");
    assert_eq!(default_model_alias("a/b/./"), "b");
    assert_eq!(default_model_alias("a/.."), "local-model");
    assert_eq!(default_model_alias("/"), "local-model");
    assert_eq!(default_model_alias(""), "local-model");
    assert_eq!(default_model_alias("."), "local-model");
    assert_eq!(default_model_alias("x/..."), "..");
}

#[test]
fn model_alias_matches_std_path() {
    for p in ["/a/b.c.d", "a", "a/", "a/.b", "a/b.", "./x.gguf", "x//y.z", "...", "..a", "a.b/c"] {
        let expected = std::path::Path::new(p)
            .file_stem()
            .and_then(|n| n.to_str())
            .map(|s| s.to_string())
            .unwrap_or_else(|| "local-model".to_string());
        assert_eq!(default_model_alias(p), expected, "path {:?}", p);
    }
}

fn dev(index: usize, backend: &str, kind: DeviceKind) -> BackendDevice {
    BackendDevice { index, backend: backend.to_string(), kind }
}

#[test]
fn cpu_needs_no_gpu() {
    let plan = plan_devices("cpu", &Vec::new()).unwrap();
    assert_eq!(plan, DevicePlan { use_gpu: false, gpu_layers: 0, main_device: None });
}

#[test]
fn gpu_preferences() {
    let devices = vec![
        dev(0, "CPU", DeviceKind::Cpu),
        dev(1, "Vulkan", DeviceKind::IntegratedGpu),
        dev(2, "CUDA", DeviceKind::Gpu),
        dev(3, "ROCm", DeviceKind::Gpu),
    ];
    assert_eq!(plan_devices("NVIDIA", &devices).unwrap().main_device, Some(1));
    let no_vulkan = vec![dev(0, "CPU", DeviceKind::Cpu), dev(2, "CUDA", DeviceKind::Gpu), dev(3, "ROCm", DeviceKind::Gpu)];
    assert_eq!(plan_devices("nvidia", &no_vulkan).unwrap().main_device, Some(2));
    assert_eq!(plan_devices("AMD", &no_vulkan).unwrap().main_device, Some(3));
    let only_metal = vec![dev(5, "Metal", DeviceKind::Gpu)];
    let plan = plan_devices("AMD", &only_metal).unwrap();
    assert_eq!(plan, DevicePlan { use_gpu: true, gpu_layers: u32::MAX, main_device: Some(5) });
}

#[test]
fn gpu_wanted_but_missing() {
    let devices = vec![dev(0, "CPU", DeviceKind::Cpu), dev(1, "BLAS", DeviceKind::Accelerator)];
    assert_eq!(
        plan_devices("NVIDIA", &devices),
        Err(Error::LocalModelInferenceError(NO_GPU_DETAIL.to_string()))
    );
}

#[test]
fn context_plans() {
    assert_eq!(context_plan(16384, 2048), ContextPlan { n_ctx: 16384, n_batch: 2048, n_ubatch: 1024 });
    assert_eq!(context_plan(100, 2048), ContextPlan { n_ctx: 512, n_batch: 100, n_ubatch: 50 });
    assert_eq!(context_plan(16384, 8), ContextPlan { n_ctx: 16384, n_batch: 32, n_ubatch: 32 });
    assert_eq!(context_plan(0, 0), ContextPlan { n_ctx: 512, n_batch: 32, n_ubatch: 32 });
    assert_eq!(context_plan(50, 60), ContextPlan { n_ctx: 512, n_batch: 50, n_ubatch: 32 });
}

#[test]
fn seeds() {
    assert_eq!(sampler_seed(20), 20);
    assert_eq!(sampler_seed(0), 42);
    assert_eq!(sampler_seed(-3), 42);
}

#[test]
fn urls() {
    assert_eq!(ollama_chat_url("localhost:11434"), "http://localhost:11434/api/chat");
    assert_eq!(ollama_chat_url("https://h.example//"), "https://h.example/api/chat");
    assert_eq!(ollama_chat_url("http://10.0.0.2:11434/"), "http://10.0.0.2:11434/api/chat");
    assert_eq!(
        gemini_url("gemini-2.5-flash"),
        "https://generativelanguage.googleapis.com/v1beta/models/gemini-2.5-flash:generateContent"
    );
}

#[test]
fn directories_do_not_change_the_alias() {
    assert_eq!(default_model_alias("deep/dir/tree/llama.gguf"), default_model_alias("llama.gguf"));
    assert_eq!(default_model_alias("/llama.gguf"), "llama");
}
